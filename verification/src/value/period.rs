//! Periods and frequencies.
//!
//! The source register's period values are `Daily|TenDay|Monthly|Quarterly|Annual`;
//! the shared period shape has the five variants
//! `Day|Month|Quarter|Year|Event`. `Period` is a superset of those five with
//! the register's ten-day period (`TenDay`), and `Frequency` is a superset of
//! the seven shared values with `TenDay`.
use vstd::prelude::*;

use crate::error::{JapanCbError, JapanCbErrorKind, JapanCbResult};
use crate::text::{
    all_digit_bytes, digit_bytes, is_digit_byte, lemma_ascii_bytes,
    all_digits, chars_of, decimal, digits_value, fixed_digits, is_digit,
    lemma_fixed_digits_injective, lemma_fixed_digits_of_value, lemma_pow10_small,
    lemma_value_of_fixed_digits, push_decimal, push_signed_zero_padded, push_zero_padded,
    signed_zero_padded, str_eq, zero_padded,
};
use crate::value::date::{
    date_error_detail, date_parse_detail, is_date_text, lemma_date_text_bytes, is_valid_ymd, lemma_iso_injective, lemma_iso_shape, read_digits, Date,
};

verus! {

/// Frequency: the seven shared values plus the register's ten-day `TenDay`.
#[non_exhaustive]
#[derive(Debug, Clone, Copy, PartialEq, Eq, Hash, Structural)]
pub enum Frequency {
    /// Daily.
    Daily,
    /// Every ten days (a third of a month).
    TenDay,
    /// Weekly.
    Weekly,
    /// Monthly.
    Monthly,
    /// Quarterly.
    Quarterly,
    /// Annual.
    Annual,
    /// Driven by events.
    Event,
    /// Irregular.
    Irregular,
}

impl Frequency {
    /// Every value.
    pub const ALL: [Frequency; 8] = [
        Frequency::Daily,
        Frequency::TenDay,
        Frequency::Weekly,
        Frequency::Monthly,
        Frequency::Quarterly,
        Frequency::Annual,
        Frequency::Event,
        Frequency::Irregular,
    ];

    /// The period values that the source register declares, verbatim.
    pub const SOURCE_DECLARED: [Frequency; 5] = [
        Frequency::Daily,
        Frequency::TenDay,
        Frequency::Monthly,
        Frequency::Quarterly,
        Frequency::Annual,
    ];

    /// The name of this frequency (this library's spelling).
    pub open spec fn name_spec(&self) -> Seq<char> {
        match self {
            Frequency::Daily => "Daily"@,
            Frequency::TenDay => "TenDay"@,
            Frequency::Weekly => "Weekly"@,
            Frequency::Monthly => "Monthly"@,
            Frequency::Quarterly => "Quarterly"@,
            Frequency::Annual => "Annual"@,
            Frequency::Event => "Event"@,
            Frequency::Irregular => "Irregular"@,
        }
    }

    /// The frequency is one of the five that the source register declares.
    pub open spec fn is_source_declared(&self) -> bool {
        match self {
            Frequency::Daily | Frequency::TenDay | Frequency::Monthly | Frequency::Quarterly
            | Frequency::Annual => true,
            _ => false,
        }
    }

    /// The name (this library's spelling, not a source code list).
    pub fn name(&self) -> (r: &'static str)
        ensures
            r@ == self.name_spec(),
    {
        match self {
            Frequency::Daily => "Daily",
            Frequency::TenDay => "TenDay",
            Frequency::Weekly => "Weekly",
            Frequency::Monthly => "Monthly",
            Frequency::Quarterly => "Quarterly",
            Frequency::Annual => "Annual",
            Frequency::Event => "Event",
            Frequency::Irregular => "Irregular",
        }
    }

    /// The frequency whose name is `name`, if any (all eight values).
    fn lookup(name: &str, declared_only: bool) -> (r: Option<Frequency>)
        ensures
            r matches Some(f) ==> f.name_spec() == name@ && (declared_only ==> f.is_source_declared()),
            r is None ==> forall|f: Frequency|
                (!declared_only || f.is_source_declared()) ==> f.name_spec() != name@,
    {
        if str_eq(name, "Daily") {
            Some(Frequency::Daily)
        } else if str_eq(name, "TenDay") {
            Some(Frequency::TenDay)
        } else if !declared_only && str_eq(name, "Weekly") {
            Some(Frequency::Weekly)
        } else if str_eq(name, "Monthly") {
            Some(Frequency::Monthly)
        } else if str_eq(name, "Quarterly") {
            Some(Frequency::Quarterly)
        } else if str_eq(name, "Annual") {
            Some(Frequency::Annual)
        } else if !declared_only && str_eq(name, "Event") {
            Some(Frequency::Event)
        } else if !declared_only && str_eq(name, "Irregular") {
            Some(Frequency::Irregular)
        } else {
            None
        }
    }

    /// Parses a name (all eight values); `Invalid` for an unknown name.
    pub fn from_name(name: &str) -> (r: JapanCbResult<Frequency>)
        ensures
            r matches Ok(f) ==> f.name_spec() == name@,
            r matches Err(e) ==> e.kind() == JapanCbErrorKind::Invalid && forall|f: Frequency|
                f.name_spec() != name@,
            r matches Err(e) ==> e.detail() == "未知频率"@,
    {
        match Frequency::lookup(name, false) {
            Some(f) => Ok(f),
            None => {
                Err(JapanCbError::Invalid(String::from_str("未知频率")))
            },
        }
    }

    /// Parses one of the period values that the source register declares.
    ///
    /// Only the five declared values are accepted; `Weekly`, `Event` and
    /// `Irregular` are in the shared domain but undeclared, so they are
    /// `SemanticallyRejected` like any other text.
    pub fn from_source_token(token: &str) -> (r: JapanCbResult<Frequency>)
        ensures
            r matches Ok(f) ==> f.name_spec() == token@ && f.is_source_declared(),
            r matches Err(e) ==> e.kind() == JapanCbErrorKind::SemanticallyRejected && forall|
                f: Frequency,
            | f.is_source_declared() ==> f.name_spec() != token@,
            r matches Err(e) ==> e.detail()
                == "清单未声明该期间取值（清单只有 Daily|TenDay|Monthly|Quarterly|Annual）"@,
    {
        match Frequency::lookup(token, true) {
            Some(f) => Ok(f),
            None => {
                Err(
                    JapanCbError::SemanticallyRejected(
                        String::from_str(
                            "清单未声明该期间取值（清单只有 Daily|TenDay|Monthly|Quarterly|Annual）",
                        ),
                    ),
                )
            },
        }
    }
}

/// `s` is the name of one of the five frequencies the register declares.
pub open spec fn is_declared_frequency_name(s: Seq<char>) -> bool {
    exists|f: Frequency| f.is_source_declared() && f.name_spec() == s
}

/// The declared frequency named `s` (meaningful when there is one).
pub open spec fn declared_frequency_named(s: Seq<char>) -> Frequency {
    choose|f: Frequency| f.is_source_declared() && f.name_spec() == s
}

/// The length and first letter of a frequency's name.
spec fn name_signature(f: Frequency) -> (nat, char) {
    match f {
        Frequency::Daily => (5, 'D'),
        Frequency::TenDay => (6, 'T'),
        Frequency::Weekly => (6, 'W'),
        Frequency::Monthly => (7, 'M'),
        Frequency::Quarterly => (9, 'Q'),
        Frequency::Annual => (6, 'A'),
        Frequency::Event => (5, 'E'),
        Frequency::Irregular => (9, 'I'),
    }
}

proof fn lemma_name_signature(f: Frequency)
    ensures
        f.name_spec().len() == name_signature(f).0,
        f.name_spec()[0] == name_signature(f).1,
{
    match f {
        Frequency::Daily => reveal_strlit("Daily"),
        Frequency::TenDay => reveal_strlit("TenDay"),
        Frequency::Weekly => reveal_strlit("Weekly"),
        Frequency::Monthly => reveal_strlit("Monthly"),
        Frequency::Quarterly => reveal_strlit("Quarterly"),
        Frequency::Annual => reveal_strlit("Annual"),
        Frequency::Event => reveal_strlit("Event"),
        Frequency::Irregular => reveal_strlit("Irregular"),
    }
}

/// Different frequencies have different names.
pub proof fn lemma_frequency_name_injective(f: Frequency, g: Frequency)
    requires
        f.name_spec() == g.name_spec(),
    ensures
        f == g,
{
    lemma_name_signature(f);
    lemma_name_signature(g);
}

/// A business period: the five shared variants plus the register's
/// ten-day period.
#[non_exhaustive]
#[derive(Debug, Clone, Copy, PartialEq, Eq, Hash, Structural)]
pub enum Period {
    /// A day.
    Day(Date),
    /// The `segment`-th third (1–3) of a month. The register names the ten-day
    /// period but not its bounds, so only the identity is carried.
    TenDay {
        /// Year.
        year: i16,
        /// Month (1–12).
        month: u8,
        /// Ten-day segment (1–3).
        segment: u8,
    },
    /// A month.
    Month {
        /// Year.
        year: i16,
        /// Month (1–12).
        month: u8,
    },
    /// A quarter.
    Quarter {
        /// Year.
        year: i16,
        /// Quarter (1–4).
        quarter: u8,
    },
    /// A year.
    Year(i16),
    /// The date of an event.
    Event {
        /// The event's date.
        date: Date,
    },
}

/// The prefix of an event period's key.
pub open spec fn event_prefix() -> Seq<char> {
    seq!['e', 'v', 'e', 'n', 't', ':']
}

/// `s` is the key of some valid period.
pub open spec fn is_period_key(s: Seq<char>) -> bool {
    exists|p: Period| p.wf() && p.key_spec() == s
}

/// The valid period whose key is `s` (meaningful when there is one).
pub open spec fn period_of_key(s: Seq<char>) -> Period {
    choose|p: Period| p.wf() && p.key_spec() == s
}

/// The period that parsing returns is the one whose key the text is.
pub proof fn lemma_period_of_key(p: Period)
    requires
        p.wf(),
    ensures
        is_period_key(p.key_spec()),
        period_of_key(p.key_spec()) == p,
{
    let q = period_of_key(p.key_spec());
    lemma_period_key_injective(p, q);
}

impl Period {
    /// The period's fields are in range (what the constructors check).
    pub open spec fn wf(&self) -> bool {
        match *self {
            Period::Day(d) => d.wf(),
            Period::TenDay { year, month, segment } => is_valid_ymd(year as int, month as int, 1)
                && 1 <= segment <= 3,
            Period::Month { year, month } => is_valid_ymd(year as int, month as int, 1),
            Period::Quarter { year, quarter } => 1 <= year <= 9999 && 1 <= quarter <= 4,
            Period::Year(year) => 1 <= year <= 9999,
            Period::Event { date } => date.wf(),
        }
    }

    /// The canonical key: `YYYY-MM-DD` (day), `YYYY-MM-Tn` (ten days),
    /// `YYYY-MM` (month), `YYYY-Qn` (quarter), `YYYY` (year),
    /// `event:YYYY-MM-DD` (event).
    pub open spec fn key_spec(&self) -> Seq<char> {
        match *self {
            Period::Day(d) => d.iso(),
            Period::TenDay { year, month, segment } => signed_zero_padded(year as int, 4) + seq![
                '-',
            ] + zero_padded(month as nat, 2) + seq!['-', 'T'] + decimal(segment as nat),
            Period::Month { year, month } => signed_zero_padded(year as int, 4) + seq!['-']
                + zero_padded(month as nat, 2),
            Period::Quarter { year, quarter } => signed_zero_padded(year as int, 4) + seq![
                '-',
                'Q',
            ] + decimal(quarter as nat),
            Period::Year(year) => signed_zero_padded(year as int, 4),
            Period::Event { date } => event_prefix() + date.iso(),
        }
    }

    /// The frequency that fits the period best.
    pub open spec fn frequency_spec(&self) -> Frequency {
        match *self {
            Period::Day(_) => Frequency::Daily,
            Period::TenDay { .. } => Frequency::TenDay,
            Period::Month { .. } => Frequency::Monthly,
            Period::Quarter { .. } => Frequency::Quarterly,
            Period::Year(_) => Frequency::Annual,
            Period::Event { .. } => Frequency::Event,
        }
    }

    /// A day.
    pub fn day(date: Date) -> (p: Period)
        ensures
            p == Period::Day(date),
            p.wf(),
    {
        proof {
            use_type_invariant(&date);
        }
        Period::Day(date)
    }

    /// The `segment`-th ten days of a month; `Invalid` when the year, month or
    /// segment is out of range.
    pub fn ten_day(year: i16, month: u8, segment: u8) -> (r: JapanCbResult<Period>)
        ensures
            r is Ok <==> 1 <= year <= 9999 && 1 <= month <= 12 && 1 <= segment <= 3,
            r matches Ok(p) ==> p == (Period::TenDay { year, month, segment }),
            r matches Err(e) ==> e.kind() == JapanCbErrorKind::Invalid && e.detail() == if 1 <= year
                <= 9999 && 1 <= month <= 12 {
                "旬序号 "@ + decimal(segment as nat) + " 超出 1–3"@
            } else {
                "旬期间非法："@ + date_error_detail(year as int, month as nat, 1)
            },
    {
        if let Err(e) = Date::new(year, month, 1) {
            let mut m = String::from_str("旬期间非法：");
            m.append(detail_of(&e));
            return Err(JapanCbError::Invalid(m));
        }
        if segment < 1 || segment > 3 {
            let mut m = String::from_str("旬序号 ");
            push_decimal(&mut m, segment as u64);
            m.append(" 超出 1–3");
            return Err(JapanCbError::Invalid(m));
        }
        Ok(Period::TenDay { year, month, segment })
    }

    /// A month; `Invalid` when the year or month is out of range.
    pub fn month(year: i16, month: u8) -> (r: JapanCbResult<Period>)
        ensures
            r is Ok <==> 1 <= year <= 9999 && 1 <= month <= 12,
            r matches Ok(p) ==> p == (Period::Month { year, month }),
            r matches Err(e) ==> e.kind() == JapanCbErrorKind::Invalid && e.detail() == "月期间非法："@
                + date_error_detail(year as int, month as nat, 1),
    {
        if let Err(e) = Date::new(year, month, 1) {
            let mut m = String::from_str("月期间非法：");
            m.append(detail_of(&e));
            return Err(JapanCbError::Invalid(m));
        }
        Ok(Period::Month { year, month })
    }

    /// A quarter; `Invalid` when the year or quarter is out of range.
    pub fn quarter(year: i16, quarter: u8) -> (r: JapanCbResult<Period>)
        ensures
            r is Ok <==> 1 <= year <= 9999 && 1 <= quarter <= 4,
            r matches Ok(p) ==> p == (Period::Quarter { year, quarter }),
            r matches Err(e) ==> e.kind() == JapanCbErrorKind::Invalid && e.detail() == if 1
                <= quarter <= 4 {
                date_error_detail(year as int, ((quarter - 1) * 3 + 1) as nat, 1)
            } else {
                "季度 "@ + decimal(quarter as nat) + " 超出 1–4"@
            },
    {
        if quarter < 1 || quarter > 4 {
            let mut m = String::from_str("季度 ");
            push_decimal(&mut m, quarter as u64);
            m.append(" 超出 1–4");
            return Err(JapanCbError::Invalid(m));
        }
        if let Err(e) = Date::new(year, (quarter - 1) * 3 + 1, 1) {
            return Err(e);
        }
        Ok(Period::Quarter { year, quarter })
    }

    /// A year; `Invalid` when the year is out of range.
    pub fn year(year: i16) -> (r: JapanCbResult<Period>)
        ensures
            r is Ok <==> 1 <= year <= 9999,
            r matches Ok(p) ==> p == Period::Year(year),
            r matches Err(e) ==> e.kind() == JapanCbErrorKind::Invalid && e.detail()
                == date_error_detail(year as int, 1, 1),
    {
        if let Err(e) = Date::new(year, 1, 1) {
            return Err(e);
        }
        Ok(Period::Year(year))
    }

    /// The date of an event.
    pub fn event(date: Date) -> (p: Period)
        ensures
            p == (Period::Event { date }),
            p.wf(),
    {
        proof {
            use_type_invariant(&date);
        }
        Period::Event { date }
    }

    /// The canonical key, which [`Period::parse`] reads back.
    pub fn key(&self) -> (r: String)
        ensures
            r@ == self.key_spec(),
    {
        proof {
            reveal_strlit("-");
            reveal_strlit("-T");
            reveal_strlit("-Q");
            reveal_strlit("event:");
        }
        match *self {
            Period::Day(date) => date.to_iso(),
            Period::TenDay { year, month, segment } => {
                let mut out = String::new();
                push_signed_zero_padded(&mut out, year as i64, 4);
                out.append("-");
                push_zero_padded(&mut out, month as u64, 2);
                out.append("-T");
                push_decimal(&mut out, segment as u64);
                assert(out@ =~= self.key_spec());
                out
            },
            Period::Month { year, month } => {
                let mut out = String::new();
                push_signed_zero_padded(&mut out, year as i64, 4);
                out.append("-");
                push_zero_padded(&mut out, month as u64, 2);
                assert(out@ =~= self.key_spec());
                out
            },
            Period::Quarter { year, quarter } => {
                let mut out = String::new();
                push_signed_zero_padded(&mut out, year as i64, 4);
                out.append("-Q");
                push_decimal(&mut out, quarter as u64);
                assert(out@ =~= self.key_spec());
                out
            },
            Period::Year(year) => {
                let mut out = String::new();
                push_signed_zero_padded(&mut out, year as i64, 4);
                assert(out@ =~= self.key_spec());
                out
            },
            Period::Event { date } => {
                let mut out = String::from_str("event:");
                let iso = date.to_iso();
                out.append(iso.as_str());
                assert(out@ =~= self.key_spec());
                out
            },
        }
    }

    /// Strictly parses the forms that [`Period::key`] produces.
    ///
    /// Succeeds exactly when `input` is the key of some valid period, and
    /// returns that period; every failure is `Invalid`, with the detail of the
    /// first check that fails (see [`period_parse_detail`]).
    pub fn parse(input: &str) -> (r: JapanCbResult<Period>)
        ensures
            r matches Ok(p) ==> p.wf() && p.key_spec() == input@,
            r matches Err(e) ==> e.kind() == JapanCbErrorKind::Invalid && !is_period_key(input@)
                && e.detail() == period_parse_detail(input@),
    {
        let v = chars_of(input);
        let ghost s = input@;
        proof {
            lemma_period_key_cases(s);
            lemma_period_key_ascii(s);
            lemma_pow10_small();
        }
        let n = v.len();
        if n >= 6 && v[0] == 'e' && v[1] == 'v' && v[2] == 'e' && v[3] == 'n' && v[4] == 't' && v[5]
            == ':' {
            let rest = input.substring_char(6, n);
            proof {
                assert(s.take(6) =~= event_prefix());
                assert(s.skip(6) =~= rest@);
            }
            match Date::parse(rest) {
                Ok(date) => {
                    proof {
                        assert(s =~= event_prefix() + rest@);
                    }
                    return Ok(Period::event(date));
                },
                Err(e) => {
                    return Err(e);
                },
            }
        }
        proof {
            if s.len() >= 6 && s.take(6) == event_prefix() {
                assert(s[0] == s.take(6)[0] && s[1] == s.take(6)[1] && s[2] == s.take(6)[2]);
                assert(s[3] == s.take(6)[3] && s[4] == s.take(6)[4] && s[5] == s.take(6)[5]);
            }
        }
        let b = input.as_bytes();
        let bn = b.len();
        proof {
            vstd::utf8::encode_utf8_valid_utf8(s);
            if is_period_key(s) {
                vstd::utf8::is_ascii_chars_encode_utf8(s);
            }
        }
        if bn == 4 {
            if !all_digit_bytes(b, 0, 4) {
                proof {
                    assert(b@.subrange(0, 4) =~= b@);
                    if is_period_key(s) {
                        assert forall|k: int| 0 <= k < 4 implies is_digit_byte(#[trigger] b@[k]) by {
                            assert(s[k] as u8 == b@[k]);
                        }
                    }
                }
                return Err(shape_error("年份"));
            }
            proof {
                assert(b@.subrange(0, 4) =~= b@);
                lemma_field_ascii(b@, 0, 4);
                lemma_ascii_bytes(s);
                lemma_field_digits(s, b@, 0, 4);
                assert(s.subrange(0, 4) =~= s);
            }
            let year = read_digits(&v, 0, 4);
            proof {
                lemma_fixed_digits_of_value(s);
            }
            let r = Period::year(year as i16);
            proof {
                if let Ok(p) = r {
                    assert(p.key_spec() =~= s);
                }
            }
            return r;
        } else if bn == 7 && b[4] == 45u8 && b[5] == 81u8 {
            if !all_digit_bytes(b, 0, 4) {
                proof {
                    lemma_digit_field(s, b@, 0, 4);
                }
                return Err(shape_error("年份"));
            }
            if !all_digit_bytes(b, 6, 7) {
                proof {
                    lemma_digit_field(s, b@, 6, 7);
                }
                return Err(shape_error("季度"));
            }
            proof {
                lemma_field_ascii(b@, 0, 4);
                lemma_field_ascii(b@, 6, 7);
                assert forall|k: int| 0 <= k < b@.len() implies #[trigger] b@[k] < 0x80 by {
                    if k == 4 {
                    } else if k == 5 {
                    }
                }
                lemma_ascii_bytes(s);
                lemma_field_digits(s, b@, 0, 4);
                lemma_field_digits(s, b@, 6, 7);
                assert(s[4] as int == b@[4] && s[5] as int == b@[5]);
            }
            let year = read_digits(&v, 0, 4);
            let quarter = read_digits(&v, 6, 7);
            let r = Period::quarter(year as i16, quarter as u8);
            proof {
                if let Ok(p) = r {
                    lemma_fixed_digits_of_value(s.subrange(0, 4));
                    lemma_fixed_digits_of_value(s.subrange(6, 7));
                    assert(decimal(quarter as nat) == seq![s[6]]);
                    assert(p.key_spec() =~= s);
                }
            }
            return r;
        } else if bn == 7 && b[4] == 45u8 {
            if !all_digit_bytes(b, 0, 4) {
                proof {
                    lemma_digit_field(s, b@, 0, 4);
                }
                return Err(shape_error("年份"));
            }
            if !all_digit_bytes(b, 5, 7) {
                proof {
                    lemma_digit_field(s, b@, 5, 7);
                }
                return Err(shape_error("月份"));
            }
            proof {
                lemma_field_ascii(b@, 0, 4);
                lemma_field_ascii(b@, 5, 7);
                assert forall|k: int| 0 <= k < b@.len() implies #[trigger] b@[k] < 0x80 by {
                    if k == 4 {
                    }
                }
                lemma_ascii_bytes(s);
                lemma_field_digits(s, b@, 0, 4);
                lemma_field_digits(s, b@, 5, 7);
                assert(s[4] as int == b@[4]);
            }
            let year = read_digits(&v, 0, 4);
            let month = read_digits(&v, 5, 7);
            let r = Period::month(year as i16, month as u8);
            proof {
                if let Ok(p) = r {
                    lemma_fixed_digits_of_value(s.subrange(0, 4));
                    lemma_fixed_digits_of_value(s.subrange(5, 7));
                    assert(p.key_spec() =~= s);
                }
            }
            return r;
        } else if bn == 10 && b[4] == 45u8 && b[7] == 45u8 && b[8] == 84u8 {
            if !all_digit_bytes(b, 0, 4) {
                proof {
                    lemma_digit_field(s, b@, 0, 4);
                }
                return Err(shape_error("年份"));
            }
            if !all_digit_bytes(b, 5, 7) {
                proof {
                    lemma_digit_field(s, b@, 5, 7);
                }
                return Err(shape_error("月份"));
            }
            if !all_digit_bytes(b, 9, 10) {
                proof {
                    lemma_digit_field(s, b@, 9, 10);
                }
                return Err(shape_error("旬序号"));
            }
            proof {
                lemma_field_ascii(b@, 0, 4);
                lemma_field_ascii(b@, 5, 7);
                lemma_field_ascii(b@, 9, 10);
                assert forall|k: int| 0 <= k < b@.len() implies #[trigger] b@[k] < 0x80 by {
                    if k == 4 {
                    } else if k == 7 {
                    } else if k == 8 {
                    }
                }
                lemma_ascii_bytes(s);
                lemma_field_digits(s, b@, 0, 4);
                lemma_field_digits(s, b@, 5, 7);
                lemma_field_digits(s, b@, 9, 10);
                assert(s[4] as int == b@[4] && s[7] as int == b@[7] && s[8] as int == b@[8]);
            }
            let year = read_digits(&v, 0, 4);
            let month = read_digits(&v, 5, 7);
            let segment = read_digits(&v, 9, 10);
            let r = Period::ten_day(year as i16, month as u8, segment as u8);
            proof {
                if let Ok(p) = r {
                    lemma_fixed_digits_of_value(s.subrange(0, 4));
                    lemma_fixed_digits_of_value(s.subrange(5, 7));
                    assert(decimal(segment as nat) == seq![s[9]]);
                    assert(p.key_spec() =~= s);
                }
            }
            return r;
        } else if bn == 10 {
            proof {
                if is_period_key(s) {
                    assert(s[8] as u8 == b@[8]);
                    assert(s[4] as u8 == b@[4]);
                    assert(s[7] as u8 == b@[7]);
                }
            }
            let date = Date::parse(input)?;
            return Ok(Period::day(date));
        }
        proof {
            if is_period_key(s) && s.len() > 4 {
                assert(s[4] as u8 == b@[4]);
            }
        }
        Err(
            JapanCbError::Invalid(
                String::from_str(
                    "期间形态非法（须为 YYYY-MM-DD / YYYY-MM-Tn / YYYY-MM / YYYY-Qn / YYYY / event:YYYY-MM-DD）",
                ),
            ),
        )
    }

    /// The frequency that fits the period best.
    pub fn frequency(&self) -> (f: Frequency)
        ensures
            f == self.frequency_spec(),
    {
        match self {
            Period::Day(_) => Frequency::Daily,
            Period::TenDay { .. } => Frequency::TenDay,
            Period::Month { .. } => Frequency::Monthly,
            Period::Quarter { .. } => Frequency::Quarterly,
            Period::Year(_) => Frequency::Annual,
            Period::Event { .. } => Frequency::Event,
        }
    }
}

/// The detail of the error for a field `label` that is not all digits.
pub open spec fn shape_error_detail(label: Seq<char>) -> Seq<char> {
    label + "形态非法"@
}

/// The detail of the error for a text that is not the key of a valid period.
///
/// After `event:` the rest must be a date. Otherwise the length of the UTF-8
/// bytes and the separators found choose the form; its fields are checked in
/// order (the first that is not all digits is named), then the
/// period's own ranges. A text of no known form is refused as a whole. No
/// detail repeats the text.
pub open spec fn period_parse_detail(s: Seq<char>) -> Seq<char> {
    let b = vstd::utf8::encode_utf8(s);
    let year = digits_value(s.subrange(0, 4)) as int;
    let month = digits_value(s.subrange(5, 7));
    if s.len() >= 6 && s.take(6) == event_prefix() {
        date_parse_detail(s.skip(6))
    } else if b.len() == 4 {
        if !digit_bytes(b) {
            shape_error_detail("年份"@)
        } else {
            date_error_detail(digits_value(s) as int, 1, 1)
        }
    } else if b.len() == 7 && b[4] == 45 && b[5] == 81 {
        let quarter = digits_value(s.subrange(6, 7));
        if !digit_bytes(b.subrange(0, 4)) {
            shape_error_detail("年份"@)
        } else if !digit_bytes(b.subrange(6, 7)) {
            shape_error_detail("季度"@)
        } else if 1 <= quarter <= 4 {
            date_error_detail(year, ((quarter - 1) * 3 + 1) as nat, 1)
        } else {
            "季度 "@ + decimal(quarter) + " 超出 1–4"@
        }
    } else if b.len() == 7 && b[4] == 45 {
        if !digit_bytes(b.subrange(0, 4)) {
            shape_error_detail("年份"@)
        } else if !digit_bytes(b.subrange(5, 7)) {
            shape_error_detail("月份"@)
        } else {
            "月期间非法："@ + date_error_detail(year, month, 1)
        }
    } else if b.len() == 10 && b[4] == 45 && b[7] == 45 && b[8] == 84 {
        if !digit_bytes(b.subrange(0, 4)) {
            shape_error_detail("年份"@)
        } else if !digit_bytes(b.subrange(5, 7)) {
            shape_error_detail("月份"@)
        } else if !digit_bytes(b.subrange(9, 10)) {
            shape_error_detail("旬序号"@)
        } else if 1 <= year <= 9999 && 1 <= month <= 12 {
            "旬序号 "@ + decimal(digits_value(s.subrange(9, 10))) + " 超出 1–3"@
        } else {
            "旬期间非法："@ + date_error_detail(year, month, 1)
        }
    } else if b.len() == 10 {
        date_parse_detail(s)
    } else {
        "期间形态非法（须为 YYYY-MM-DD / YYYY-MM-Tn / YYYY-MM / YYYY-Qn / YYYY / event:YYYY-MM-DD）"@
    }
}

/// The error for a field `label` that is not all digits.
fn shape_error(label: &str) -> (e: JapanCbError)
    ensures
        e.kind() == JapanCbErrorKind::Invalid,
        e.detail() == shape_error_detail(label@),
{
    let mut m = String::from_str(label);
    m.append("形态非法");
    JapanCbError::Invalid(m)
}

/// Digit bytes are ASCII.
proof fn lemma_field_ascii(b: Seq<u8>, lo: int, hi: int)
    requires
        0 <= lo <= hi <= b.len(),
        digit_bytes(b.subrange(lo, hi)),
    ensures
        forall|k: int| lo <= k < hi ==> is_digit_byte(#[trigger] b[k]) && b[k] < 0x80,
{
    assert forall|k: int| lo <= k < hi implies is_digit_byte(#[trigger] b[k]) && b[k] < 0x80 by {
        assert(b[k] == b.subrange(lo, hi)[k - lo]);
    }
}

/// Over a text whose bytes are its characters, a field of digit bytes is a
/// field of digits.
proof fn lemma_field_digits(s: Seq<char>, b: Seq<u8>, lo: int, hi: int)
    requires
        s.len() == b.len(),
        forall|k: int| 0 <= k < s.len() ==> #[trigger] s[k] as int == b[k],
        0 <= lo <= hi <= b.len(),
        digit_bytes(b.subrange(lo, hi)),
    ensures
        all_digits(s.subrange(lo, hi)),
{
    assert forall|k: int| 0 <= k < hi - lo implies is_digit(#[trigger] s.subrange(lo, hi)[k]) by {
        assert(s.subrange(lo, hi)[k] == s[lo + k]);
        assert(b.subrange(lo, hi)[k] == b[lo + k]);
        assert(s[lo + k] as int == b[lo + k]);
    }
}

/// A field of a key is all digits, so a text whose bytes there are not all
/// digits is no key.
proof fn lemma_digit_field(s: Seq<char>, b: Seq<u8>, lo: int, hi: int)
    requires
        b == vstd::utf8::encode_utf8(s),
        0 <= lo <= hi <= b.len(),
        !digit_bytes(b.subrange(lo, hi)),
        is_period_key(s) ==> all_digits(s.subrange(lo, hi)),
    ensures
        !is_period_key(s),
{
    if is_period_key(s) {
        lemma_period_key_ascii(s);
        vstd::utf8::is_ascii_chars_encode_utf8(s);
        assert forall|k: int| 0 <= k < hi - lo implies is_digit_byte(
            #[trigger] b.subrange(lo, hi)[k],
        ) by {
            assert(b.subrange(lo, hi)[k] == b[lo + k]);
            assert(s.subrange(lo, hi)[k] == s[lo + k]);
            assert(is_digit(s[lo + k]));
            assert(s[lo + k] as u8 == b[lo + k]);
        }
    }
}

/// The detail text of an error.
fn detail_of(e: &JapanCbError) -> (r: &str)
    ensures
        r@ == e.detail(),
{
    match e {
        JapanCbError::Invalid(m) => m.as_str(),
        JapanCbError::Missing(m) => m.as_str(),
        JapanCbError::AuthorizationDenied(m) => m.as_str(),
        JapanCbError::RoutedElsewhere(m) => m.as_str(),
        JapanCbError::WriteAuthorityDenied(m) => m.as_str(),
        JapanCbError::SemanticallyRejected(m) => m.as_str(),
        JapanCbError::NotApplicable(m) => m.as_str(),
        JapanCbError::Invariant(m) => m.as_str(),
    }
}

/// The key of a valid period, variant by variant: its length, its fixed
/// characters, and the values that its digit fields spell.
pub proof fn lemma_key_shape(p: Period)
    requires
        p.wf(),
    ensures
        match p {
            Period::Day(d) => {
                let k = p.key_spec();
                &&& k == d.iso()
                &&& k.len() == 10
                &&& is_digit(k[8])
                &&& is_digit(k[0])
            },
            Period::Event { date } => p.key_spec().len() == 16 && p.key_spec().take(6)
                == event_prefix() && p.key_spec().skip(6) == date.iso(),
            Period::Year(y) => p.key_spec() == fixed_digits(y as nat, 4) && p.key_spec().len()
                == 4 && all_digits(p.key_spec()) && digits_value(p.key_spec()) == y,
            Period::Quarter { year, quarter } => {
                let k = p.key_spec();
                &&& k.len() == 7
                &&& k[4] == '-'
                &&& k[5] == 'Q'
                &&& k.subrange(0, 4) == fixed_digits(year as nat, 4)
                &&& all_digits(k.subrange(0, 4))
                &&& digits_value(k.subrange(0, 4)) == year
                &&& all_digits(k.subrange(6, 7))
                &&& digits_value(k.subrange(6, 7)) == quarter
                &&& is_digit(k[0])
            },
            Period::Month { year, month } => {
                let k = p.key_spec();
                &&& k.len() == 7
                &&& k[4] == '-'
                &&& is_digit(k[5])
                &&& k.subrange(0, 4) == fixed_digits(year as nat, 4)
                &&& k.subrange(5, 7) == fixed_digits(month as nat, 2)
                &&& all_digits(k.subrange(0, 4))
                &&& digits_value(k.subrange(0, 4)) == year
                &&& all_digits(k.subrange(5, 7))
                &&& digits_value(k.subrange(5, 7)) == month
                &&& is_digit(k[0])
            },
            Period::TenDay { year, month, segment } => {
                let k = p.key_spec();
                &&& k.len() == 10
                &&& k[4] == '-'
                &&& k[7] == '-'
                &&& k[8] == 'T'
                &&& k.subrange(0, 4) == fixed_digits(year as nat, 4)
                &&& k.subrange(5, 7) == fixed_digits(month as nat, 2)
                &&& all_digits(k.subrange(0, 4))
                &&& digits_value(k.subrange(0, 4)) == year
                &&& all_digits(k.subrange(5, 7))
                &&& digits_value(k.subrange(5, 7)) == month
                &&& all_digits(k.subrange(9, 10))
                &&& digits_value(k.subrange(9, 10)) == segment
                &&& is_digit(k[0])
            },
        },
{
    lemma_pow10_small();
    let k = p.key_spec();
    match p {
        Period::Day(d) => {
            lemma_iso_shape(d);
            assert(k.subrange(8, 10)[0] == k[8]);
            assert(k.subrange(0, 4)[0] == k[0]);
            assert(is_digit(k.subrange(8, 10)[0]));
            assert(is_digit(k.subrange(0, 4)[0]));
        },
        Period::Event { date } => {
            lemma_iso_shape(date);
            assert(k.take(6) =~= event_prefix());
            assert(k.skip(6) =~= date.iso());
        },
        Period::Year(y) => {
            lemma_value_of_fixed_digits(y as nat, 4);
        },
        Period::Quarter { year, quarter } => {
            lemma_value_of_fixed_digits(year as nat, 4);
            let f = fixed_digits(year as nat, 4);
            assert(decimal(quarter as nat) == seq![crate::text::digit_char(quarter as int)]);
            assert(k.subrange(0, 4) =~= f);
            assert(k.subrange(6, 7) =~= seq![crate::text::digit_char(quarter as int)]);
            assert(k.subrange(6, 7).drop_last() =~= Seq::<char>::empty());
            assert(k.subrange(6, 7).last() == crate::text::digit_char(quarter as int));
            assert(crate::text::digit_value(crate::text::digit_char(quarter as int)) == quarter);
            assert(digits_value(k.subrange(6, 7).drop_last()) == 0);
            assert(digits_value(k.subrange(6, 7)) == quarter);
            assert(k[0] == f[0]);
        },
        Period::Month { year, month } => {
            lemma_value_of_fixed_digits(year as nat, 4);
            lemma_value_of_fixed_digits(month as nat, 2);
            let f = fixed_digits(year as nat, 4);
            let g = fixed_digits(month as nat, 2);
            assert(k.subrange(0, 4) =~= f);
            assert(k.subrange(5, 7) =~= g);
            assert(k[0] == f[0]);
            assert(k[5] == g[0]);
        },
        Period::TenDay { year, month, segment } => {
            lemma_value_of_fixed_digits(year as nat, 4);
            lemma_value_of_fixed_digits(month as nat, 2);
            let f = fixed_digits(year as nat, 4);
            let g = fixed_digits(month as nat, 2);
            assert(decimal(segment as nat) == seq![crate::text::digit_char(segment as int)]);
            assert(k.subrange(0, 4) =~= f);
            assert(k.subrange(5, 7) =~= g);
            assert(k.subrange(9, 10) =~= seq![crate::text::digit_char(segment as int)]);
            assert(k.subrange(9, 10).drop_last() =~= Seq::<char>::empty());
            assert(k.subrange(9, 10).last() == crate::text::digit_char(segment as int));
            assert(crate::text::digit_value(crate::text::digit_char(segment as int)) == segment);
            assert(digits_value(k.subrange(9, 10).drop_last()) == 0);
            assert(digits_value(k.subrange(9, 10)) == segment);
            assert(k[0] == f[0]);
        },
    }
}

/// What a text must look like to be the key of a valid period.
proof fn lemma_period_key_cases(s: Seq<char>)
    ensures
        is_period_key(s) ==> {
            ||| (s.len() >= 6 && s.take(6) == event_prefix() && is_date_text(s.skip(6)))
            ||| (s.len() == 4 && all_digits(s) && 1 <= digits_value(s) <= 9999)
            ||| (s.len() == 7 && s[4] == '-' && s[5] == 'Q' && all_digits(s.subrange(0, 4))
                && all_digits(s.subrange(6, 7)) && 1 <= digits_value(s.subrange(0, 4)) <= 9999
                && 1 <= digits_value(s.subrange(6, 7)) <= 4 && is_digit(s[0]))
            ||| (s.len() == 7 && s[4] == '-' && s[5] != 'Q' && all_digits(s.subrange(0, 4))
                && all_digits(s.subrange(5, 7)) && is_valid_ymd(
                digits_value(s.subrange(0, 4)) as int,
                digits_value(s.subrange(5, 7)) as int,
                1,
            ) && is_digit(s[0]))
            ||| (s.len() == 10 && s[4] == '-' && s[7] == '-' && s[8] == 'T' && all_digits(
                s.subrange(0, 4),
            ) && all_digits(s.subrange(5, 7)) && all_digits(s.subrange(9, 10)) && is_valid_ymd(
                digits_value(s.subrange(0, 4)) as int,
                digits_value(s.subrange(5, 7)) as int,
                1,
            ) && 1 <= digits_value(s.subrange(9, 10)) <= 3 && is_digit(s[0]))
            ||| (s.len() == 10 && s[8] != 'T' && is_date_text(s) && is_digit(s[0]))
        },
{
    if is_period_key(s) {
        let p = choose|p: Period| p.wf() && p.key_spec() == s;
        lemma_key_shape(p);
        match p {
            Period::Event { date } => {
                assert(is_date_text(s.skip(6)));
            },
            Period::Day(d) => {
                assert(is_date_text(s));
            },
            _ => {},
        }
    }
}

/// Every period key is ASCII.
proof fn lemma_period_key_ascii(s: Seq<char>)
    ensures
        is_period_key(s) ==> vstd::utf8::is_ascii_chars(s),
{
    lemma_period_key_cases(s);
    if is_period_key(s) {
        if s.len() >= 6 && s.take(6) == event_prefix() && is_date_text(s.skip(6)) {
            lemma_date_text_bytes(s.skip(6));
            assert forall|k: int| 0 <= k < s.len() implies '\0' <= #[trigger] s[k] <= '\u{7f}' by {
                if k < 6 {
                    assert(s[k] == s.take(6)[k]);
                } else {
                    assert(s[k] == s.skip(6)[k - 6]);
                }
            }
        } else if s.len() == 10 && s[8] != 'T' && is_date_text(s) {
            lemma_date_text_bytes(s);
        } else {
            assert forall|k: int| 0 <= k < s.len() implies '\0' <= #[trigger] s[k] <= '\u{7f}' by {
                if s.len() == 4 {
                } else if k < 4 {
                    assert(s[k] == s.subrange(0, 4)[k]);
                } else if s.len() == 7 && s[5] == 'Q' && k == 6 {
                    assert(s[k] == s.subrange(6, 7)[0]);
                } else if s.len() == 7 && k >= 5 {
                    assert(s[k] == s.subrange(5, 7)[k - 5]);
                } else if s.len() == 10 && 5 <= k < 7 {
                    assert(s[k] == s.subrange(5, 7)[k - 5]);
                } else if s.len() == 10 && k == 9 {
                    assert(s[k] == s.subrange(9, 10)[0]);
                }
            }
        }
    }
}

/// Valid periods with the same key are the same period, so parsing a key
/// gives back the period it was made from.
pub proof fn lemma_period_key_injective(p: Period, q: Period)
    requires
        p.wf(),
        q.wf(),
        p.key_spec() == q.key_spec(),
    ensures
        p == q,
{
    lemma_key_shape(p);
    lemma_key_shape(q);
    lemma_pow10_small();
    let k = p.key_spec();
    match (p, q) {
        (Period::Day(a), Period::Day(b)) => {
            lemma_iso_injective(a, b);
        },
        (Period::Event { date: a }, Period::Event { date: b }) => {
            lemma_iso_injective(a, b);
        },
        (Period::Day(a), Period::Event { .. }) => {},
        (Period::Event { .. }, Period::Day(b)) => {},
        (Period::Year(a), Period::Year(b)) => {
            lemma_fixed_digits_injective(a as nat, b as nat, 4);
        },
        (Period::Quarter { year: y1, quarter: q1 }, Period::Quarter { year: y2, quarter: q2 }) => {
            lemma_fixed_digits_injective(y1 as nat, y2 as nat, 4);
        },
        (Period::Month { year: y1, month: m1 }, Period::Month { year: y2, month: m2 }) => {
            lemma_fixed_digits_injective(y1 as nat, y2 as nat, 4);
            lemma_fixed_digits_injective(m1 as nat, m2 as nat, 2);
        },
        (
            Period::TenDay { year: y1, month: m1, segment: s1 },
            Period::TenDay { year: y2, month: m2, segment: s2 },
        ) => {
            lemma_fixed_digits_injective(y1 as nat, y2 as nat, 4);
            lemma_fixed_digits_injective(m1 as nat, m2 as nat, 2);
        },
        _ => {
            assert(k.len() >= 4);
            assert(k.take(6) == event_prefix() ==> k[0] == 'e');
        },
    }
}

} // verus!
