//! Calendar dates (a type of this library; no outside date crate).
//!
//! A date only carries a period's identity: no time zone, no arithmetic.
use vstd::prelude::*;

use crate::error::{JapanCbError, JapanCbErrorKind, JapanCbResult};
use crate::text::{
    all_digits, chars_of, decimal, digit_value, digits_value, fixed_digits, is_digit, is_digit_byte, lemma_ascii_bytes, lemma_fixed_digits_of_value,
    lemma_pow10_small, lemma_value_of_fixed_digits, push_decimal, push_signed_zero_padded, push_zero_padded, signed_zero_padded, zero_padded,
};

verus! {

/// Whether `year` is a leap year under the Gregorian rules.
pub open spec fn is_leap_year_spec(year: int) -> bool {
    (year % 4 == 0 && year % 100 != 0) || year % 400 == 0
}

/// The number of days of `month` in `year`; 0 when `month` is not 1–12.
pub open spec fn days_in_month_spec(year: int, month: int) -> int {
    if month == 1 || month == 3 || month == 5 || month == 7 || month == 8 || month == 10 || month
        == 12 {
        31
    } else if month == 4 || month == 6 || month == 9 || month == 11 {
        30
    } else if month == 2 {
        if is_leap_year_spec(year) {
            29
        } else {
            28
        }
    } else {
        0
    }
}

/// Year 1–9999, month 1–12, day within that month.
pub open spec fn is_valid_ymd(year: int, month: int, day: int) -> bool {
    &&& 1 <= year <= 9999
    &&& 1 <= month <= 12
    &&& 1 <= day <= days_in_month_spec(year, month)
}

/// The ISO text `YYYY-MM-DD` of year, month and day (`{:04}-{:02}-{:02}`).
pub open spec fn iso_text(year: int, month: nat, day: nat) -> Seq<char> {
    signed_zero_padded(year, 4) + seq!['-'] + zero_padded(month, 2) + seq!['-'] + zero_padded(
        day,
        2,
    )
}

/// The detail of the error for a month outside 1–12.
pub open spec fn month_error_detail(month: nat) -> Seq<char> {
    "月份 "@ + decimal(month) + " 超出 1–12"@
}

/// The detail of the error for a year, month and day that are not a valid
/// date: the first of the year, the month and the day that is out of range.
pub open spec fn date_error_detail(year: int, month: nat, day: nat) -> Seq<char> {
    if !(1 <= year <= 9999) {
        "年份 "@ + signed_zero_padded(year, 1) + " 超出 1–9999"@
    } else if !(1 <= month <= 12) {
        month_error_detail(month)
    } else {
        decimal(year as nat) + "-"@ + zero_padded(month, 2) + " 的日 "@ + decimal(day) + " 超出 1–"@
            + decimal(days_in_month_spec(year, month as int) as nat)
    }
}

/// A calendar date. Every value is valid: year 1–9999, month 1–12, and a day
/// that exists in that month (leap years included).
#[derive(Debug, Clone, Copy, PartialEq, Eq, PartialOrd, Ord, Hash, Structural)]
pub struct Date {
    year: i16,
    month: u8,
    day: u8,
}

/// Upper bound of the year, so that the ISO form always has four year digits.
const MAX_YEAR: i16 = 9999;

impl Date {
    /// The year.
    pub closed spec fn spec_year(&self) -> i16 {
        self.year
    }

    /// The month.
    pub closed spec fn spec_month(&self) -> u8 {
        self.month
    }

    /// The day of the month.
    pub closed spec fn spec_day(&self) -> u8 {
        self.day
    }

    /// The date is a real calendar date in years 1–9999.
    #[verifier::type_invariant]
    pub open spec fn wf(&self) -> bool {
        is_valid_ymd(self.spec_year() as int, self.spec_month() as int, self.spec_day() as int)
    }

    /// The ISO text `YYYY-MM-DD` of this date.
    pub open spec fn iso(&self) -> Seq<char> {
        iso_text(self.spec_year() as int, self.spec_month() as nat, self.spec_day() as nat)
    }

    /// Two dates are equal when their year, month and day are.
    pub proof fn lemma_fields_determine(a: Date, b: Date)
        requires
            a.spec_year() == b.spec_year(),
            a.spec_month() == b.spec_month(),
            a.spec_day() == b.spec_day(),
        ensures
            a == b,
    {
    }

    /// Builds and checks a date.
    pub fn new(year: i16, month: u8, day: u8) -> (r: JapanCbResult<Date>)
        ensures
            r is Ok <==> is_valid_ymd(year as int, month as int, day as int),
            r matches Ok(d) ==> d.spec_year() == year && d.spec_month() == month && d.spec_day()
                == day,
            r matches Err(e) ==> e.kind() == JapanCbErrorKind::Invalid && e.detail()
                == date_error_detail(year as int, month as nat, day as nat),
    {
        if year < 1 || year > MAX_YEAR {
            let mut m = String::from_str("年份 ");
            push_signed_zero_padded(&mut m, year as i64, 1);
            m.append(" 超出 1–9999");
            return Err(JapanCbError::Invalid(m));
        }
        let limit = match Date::days_in_month(year, month) {
            Ok(limit) => limit,
            Err(e) => {
                return Err(e);
            },
        };
        if day == 0 || day > limit {
            let mut m = String::new();
            push_decimal(&mut m, year as u64);
            m.append("-");
            push_zero_padded(&mut m, month as u64, 2);
            m.append(" 的日 ");
            push_decimal(&mut m, day as u64);
            m.append(" 超出 1–");
            push_decimal(&mut m, limit as u64);
            return Err(JapanCbError::Invalid(m));
        }
        Ok(Date { year, month, day })
    }

    /// Strict ISO parsing: only `YYYY-MM-DD`, month and day padded to two digits.
    ///
    /// Succeeds exactly when `input` is the ISO text of some valid date, and
    /// returns that date. The text is checked byte by byte: its length, the
    /// two dashes, then each digit in order, then the date's own ranges.
    pub fn parse(input: &str) -> (r: JapanCbResult<Date>)
        ensures
            r matches Ok(d) ==> d.wf() && d.iso() == input@,
            r matches Err(e) ==> e.kind() == JapanCbErrorKind::Invalid && !is_date_text(input@)
                && e.detail() == date_parse_detail(input@),
    {
        let ghost s = input@;
        let b = input.as_bytes();
        proof {
            lemma_date_text_bytes(s);
        }
        if b.len() != 10 {
            let mut m = String::from_str("日期必须为 YYYY-MM-DD：长度 ");
            push_decimal(&mut m, b.len() as u64);
            m.append(" 非法");
            return Err(JapanCbError::Invalid(m));
        }
        if b[4] != 45u8 || b[7] != 45u8 {
            return Err(
                JapanCbError::Invalid(String::from_str("日期必须为 YYYY-MM-DD：分隔符必须为 `-`")),
            );
        }
        let mut i: usize = 0;
        while i < 10
            invariant
                b@ == vstd::utf8::encode_utf8(s),
                b@.len() == 10,
                i <= 10,
                forall|k: int| 0 <= k < i && k != 4 && k != 7 ==> is_digit_byte(#[trigger] b@[k]),
                first_non_digit(b@, 0) == first_non_digit(b@, i as nat),
                s == input@,
                is_date_text(s) ==> first_non_digit(b@, 0) == 10,
                b@[4] == 45 && b@[7] == 45,
            decreases 10 - i,
        {
            if i != 4 && i != 7 && !(48u8 <= b[i] && b[i] <= 57u8) {
                assert(first_non_digit(b@, i as nat) == i);
                let mut m = String::from_str("日期第 ");
                push_decimal(&mut m, i as u64);
                m.append(" 位不是数字");
                return Err(JapanCbError::Invalid(m));
            }
            i = i + 1;
        }
        let v = chars_of(input);
        proof {
            assert forall|k: int| 0 <= k < b@.len() implies #[trigger] b@[k] < 0x80 by {
                if k != 4 && k != 7 {
                    assert(is_digit_byte(b@[k]));
                }
            }
            lemma_ascii_bytes(s);
            assert forall|k: int| 0 <= k < 10 && k != 4 && k != 7 implies is_digit(#[trigger] v@[k]) by {
                assert(is_digit_byte(b@[k]));
                assert(s[k] as int == b@[k]);
            }
            assert(s[4] as int == b@[4]);
            assert(s[7] as int == b@[7]);
            assert(all_digits(s.subrange(0, 4)));
            assert(all_digits(s.subrange(5, 7)));
            assert(all_digits(s.subrange(8, 10)));
            lemma_pow10_small();
        }
        let year = read_digits(&v, 0, 4);
        let month = read_digits(&v, 5, 7);
        let day = read_digits(&v, 8, 10);
        proof {
            lemma_no_date_text_unless(s);
        }
        let r = Date::new(year as i16, month as u8, day as u8);
        proof {
            if let Ok(d) = r {
                lemma_iso_of_digits(s, d);
            }
        }
        r
    }

    /// The year.
    #[verifier::when_used_as_spec(spec_year)]
    pub fn year(&self) -> (y: i16)
        ensures
            y == self.spec_year(),
    {
        self.year
    }

    /// The month (1–12).
    #[verifier::when_used_as_spec(spec_month)]
    pub fn month(&self) -> (m: u8)
        ensures
            m == self.spec_month(),
    {
        self.month
    }

    /// The day of the month (1–31).
    #[verifier::when_used_as_spec(spec_day)]
    pub fn day(&self) -> (d: u8)
        ensures
            d == self.spec_day(),
    {
        self.day
    }

    /// Whether `year` is a leap year (Gregorian rules).
    pub fn is_leap_year(year: i16) -> (r: bool)
        ensures
            r == is_leap_year_spec(year as int),
    {
        let y = year as i32;
        (y % 4 == 0 && y % 100 != 0) || y % 400 == 0
    }

    /// The number of days of `month` in `year`; `Invalid` when the month is
    /// not 1–12.
    pub fn days_in_month(year: i16, month: u8) -> (r: JapanCbResult<u8>)
        ensures
            r is Ok <==> 1 <= month <= 12,
            r matches Ok(n) ==> n == days_in_month_spec(year as int, month as int),
            r matches Err(e) ==> e.kind() == JapanCbErrorKind::Invalid && e.detail()
                == month_error_detail(month as nat),
    {
        if month == 1 || month == 3 || month == 5 || month == 7 || month == 8 || month == 10
            || month == 12 {
            Ok(31)
        } else if month == 4 || month == 6 || month == 9 || month == 11 {
            Ok(30)
        } else if month == 2 {
            if Date::is_leap_year(year) {
                Ok(29)
            } else {
                Ok(28)
            }
        } else {
            let mut m = String::from_str("月份 ");
            push_decimal(&mut m, month as u64);
            m.append(" 超出 1–12");
            Err(JapanCbError::Invalid(m))
        }
    }

    /// The ISO text `YYYY-MM-DD`.
    pub fn to_iso(&self) -> (r: String)
        ensures
            r@ == self.iso(),
    {
        let mut out = String::new();
        push_signed_zero_padded(&mut out, self.year as i64, 4);
        proof {
            reveal_strlit("-");
        }
        out.append("-");
        push_zero_padded(&mut out, self.month as u64, 2);
        out.append("-");
        push_zero_padded(&mut out, self.day as u64, 2);
        assert(out@ =~= self.iso());
        out
    }

    /// The display form, the same as [`Date::to_iso`].
    pub fn to_string(&self) -> (r: String)
        ensures
            r@ == self.iso(),
    {
        self.to_iso()
    }
}

/// The first of the positions `i` to 9 of `b`, other than the dashes at 4 and
/// 7, whose byte is not an ASCII digit; 10 when there is none.
pub open spec fn first_non_digit(b: Seq<u8>, i: nat) -> nat
    decreases 10 - i,
{
    if i >= 10 {
        10
    } else if i != 4 && i != 7 && !is_digit_byte(b[i as int]) {
        i
    } else {
        first_non_digit(b, i + 1)
    }
}

/// The detail of the error for a text that is not the ISO text of a valid
/// date, found on its UTF-8 bytes: a length other than ten, a missing dash,
/// the first position that is not a digit, then the date's own ranges.
pub open spec fn date_parse_detail(s: Seq<char>) -> Seq<char> {
    let b = vstd::utf8::encode_utf8(s);
    if b.len() != 10 {
        "日期必须为 YYYY-MM-DD：长度 "@ + decimal(b.len()) + " 非法"@
    } else if b[4] != 45 || b[7] != 45 {
        "日期必须为 YYYY-MM-DD：分隔符必须为 `-`"@
    } else if first_non_digit(b, 0) < 10 {
        "日期第 "@ + decimal(first_non_digit(b, 0)) + " 位不是数字"@
    } else {
        date_error_detail(
            digits_value(s.subrange(0, 4)) as int,
            digits_value(s.subrange(5, 7)),
            digits_value(s.subrange(8, 10)),
        )
    }
}

/// `s` is the ISO text of some valid date.
pub open spec fn is_date_text(s: Seq<char>) -> bool {
    exists|d: Date| d.wf() && d.iso() == s
}

/// The ISO text of a valid date: ten characters, dashes at 4 and 7, and the
/// padded digits of year, month and day in between.
pub proof fn lemma_iso_shape(d: Date)
    requires
        d.wf(),
    ensures
        d.iso().len() == 10,
        d.iso()[4] == '-',
        d.iso()[7] == '-',
        d.iso().subrange(0, 4) == fixed_digits(d.spec_year() as nat, 4),
        d.iso().subrange(5, 7) == fixed_digits(d.spec_month() as nat, 2),
        d.iso().subrange(8, 10) == fixed_digits(d.spec_day() as nat, 2),
        all_digits(d.iso().subrange(0, 4)),
        all_digits(d.iso().subrange(5, 7)),
        all_digits(d.iso().subrange(8, 10)),
        digits_value(d.iso().subrange(0, 4)) == d.spec_year(),
        digits_value(d.iso().subrange(5, 7)) == d.spec_month(),
        digits_value(d.iso().subrange(8, 10)) == d.spec_day(),
{
    lemma_pow10_small();
    let y = d.spec_year() as nat;
    let m = d.spec_month() as nat;
    let dd = d.spec_day() as nat;
    lemma_value_of_fixed_digits(y, 4);
    lemma_value_of_fixed_digits(m, 2);
    lemma_value_of_fixed_digits(dd, 2);
    let s = d.iso();
    assert(s == fixed_digits(y, 4) + seq!['-'] + fixed_digits(m, 2) + seq!['-'] + fixed_digits(
        dd,
        2,
    ));
    assert(s.subrange(0, 4) =~= fixed_digits(y, 4));
    assert(s.subrange(5, 7) =~= fixed_digits(m, 2));
    assert(s.subrange(8, 10) =~= fixed_digits(dd, 2));
}

/// Valid dates with the same ISO text are the same date.
pub proof fn lemma_iso_injective(a: Date, b: Date)
    requires
        a.wf(),
        b.wf(),
        a.iso() == b.iso(),
    ensures
        a == b,
{
    lemma_iso_shape(a);
    lemma_iso_shape(b);
    Date::lemma_fields_determine(a, b);
}

/// What a text must look like to be the ISO text of a valid date.
proof fn lemma_no_date_text_unless(s: Seq<char>)
    ensures
        is_date_text(s) ==> {
            &&& s.len() == 10
            &&& s[4] == '-'
            &&& s[7] == '-'
            &&& forall|k: int| 0 <= k < 10 && k != 4 && k != 7 ==> is_digit(#[trigger] s[k])
            &&& is_valid_ymd(
                digits_value(s.subrange(0, 4)) as int,
                digits_value(s.subrange(5, 7)) as int,
                digits_value(s.subrange(8, 10)) as int,
            )
        },
{
    if is_date_text(s) {
        let d = choose|d: Date| d.wf() && d.iso() == s;
        lemma_iso_shape(d);
        assert forall|k: int| 0 <= k < 10 && k != 4 && k != 7 implies is_digit(#[trigger] s[k]) by {
            if k < 4 {
                assert(s[k] == s.subrange(0, 4)[k]);
            } else if k < 7 {
                assert(s[k] == s.subrange(5, 7)[k - 5]);
            } else {
                assert(s[k] == s.subrange(8, 10)[k - 8]);
            }
        }
    }
}

/// The ISO text of a valid date is ASCII, and its UTF-8 bytes are ten bytes,
/// dashes at 4 and 7, ASCII digits elsewhere.
pub proof fn lemma_date_text_bytes(s: Seq<char>)
    ensures
        is_date_text(s) ==> vstd::utf8::is_ascii_chars(s),
        is_date_text(s) ==> {
            let b = vstd::utf8::encode_utf8(s);
            &&& b.len() == 10
            &&& b[4] == 45
            &&& b[7] == 45
            &&& first_non_digit(b, 0) == 10
        },
{
    if is_date_text(s) {
        lemma_no_date_text_unless(s);
        assert(vstd::utf8::is_ascii_chars(s));
        vstd::utf8::is_ascii_chars_encode_utf8(s);
        let b = vstd::utf8::encode_utf8(s);
        assert(s[4] as u8 == b[4]);
        assert(s[7] as u8 == b[7]);
        assert forall|k: int| 0 <= k < 10 && k != 4 && k != 7 implies is_digit_byte(#[trigger] b[k]) by {
            assert(s[k] as u8 == b[k]);
            assert(is_digit(s[k]));
        }
        lemma_first_non_digit_none(b, 0);
    }
}

/// With digits at every position from `i` on (the dashes aside), there is no
/// position that is not a digit.
proof fn lemma_first_non_digit_none(b: Seq<u8>, i: nat)
    requires
        b.len() == 10,
        forall|k: int| 0 <= k < 10 && k != 4 && k != 7 ==> is_digit_byte(#[trigger] b[k]),
    ensures
        first_non_digit(b, i) == 10,
    decreases 10 - i,
{
    if i < 10 {
        lemma_first_non_digit_none(b, i + 1);
    }
}

/// A digit text whose fields form a valid date is that date's ISO text.
proof fn lemma_iso_of_digits(s: Seq<char>, d: Date)
    requires
        s.len() == 10,
        s[4] == '-',
        s[7] == '-',
        all_digits(s.subrange(0, 4)),
        all_digits(s.subrange(5, 7)),
        all_digits(s.subrange(8, 10)),
        d.wf(),
        d.spec_year() == digits_value(s.subrange(0, 4)),
        d.spec_month() == digits_value(s.subrange(5, 7)),
        d.spec_day() == digits_value(s.subrange(8, 10)),
    ensures
        d.iso() == s,
{
    lemma_iso_shape(d);
    lemma_fixed_digits_of_value(s.subrange(0, 4));
    lemma_fixed_digits_of_value(s.subrange(5, 7));
    lemma_fixed_digits_of_value(s.subrange(8, 10));
    assert(d.iso() =~= s);
}

/// The number spelled by the digits `v[lo..hi]`, at most four of them.
pub fn read_digits(v: &Vec<char>, lo: usize, hi: usize) -> (n: u32)
    requires
        lo <= hi <= v.len(),
        hi - lo <= 4,
        all_digits(v@.subrange(lo as int, hi as int)),
    ensures
        n == digits_value(v@.subrange(lo as int, hi as int)),
        n < 10000,
        n < crate::text::pow10((hi - lo) as nat),
{
    proof {
        lemma_fixed_digits_of_value(v@.subrange(lo as int, hi as int));
        lemma_pow10_small();
    }
    let mut n: u32 = 0;
    let mut i: usize = lo;
    while i < hi
        invariant
            lo <= i <= hi <= v.len(),
            hi - lo <= 4,
            all_digits(v@.subrange(lo as int, hi as int)),
            n == digits_value(v@.subrange(lo as int, i as int)),
            n < 10000,
            digits_value(v@.subrange(lo as int, hi as int)) < 10000,
        decreases hi - i,
    {
        assert(v@.subrange(lo as int, i + 1).drop_last() =~= v@.subrange(lo as int, i as int));
        assert(v@[i as int] == v@.subrange(lo as int, hi as int)[i - lo]);
        proof {
            lemma_prefix_value_bounded(v@.subrange(lo as int, hi as int), (i + 1 - lo) as nat);
            assert(v@.subrange(lo as int, hi as int).take((i + 1 - lo) as int) =~= v@.subrange(
                lo as int,
                i + 1,
            ));
        }
        let d = (v[i] as u32) - 48;
        n = n * 10 + d;
        i = i + 1;
    }
    n
}

/// A prefix of a digit text never spells more than the whole text.
proof fn lemma_prefix_value_bounded(s: Seq<char>, k: nat)
    requires
        all_digits(s),
        k <= s.len(),
    ensures
        digits_value(s.take(k as int)) <= digits_value(s),
    decreases s.len() - k,
{
    if k < s.len() {
        lemma_prefix_value_bounded(s, k + 1);
        let t = s.take(k + 1 as int);
        assert(t.drop_last() =~= s.take(k as int));
        assert(is_digit(s[k as int]));
        assert(digit_value(t.last()) >= 0);
    } else {
        assert(s.take(k as int) =~= s);
    }
}

} // verus!
