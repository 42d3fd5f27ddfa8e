//! Observation values: unit, revision, named absence, and the data point.
//!
//! The source unit is kept verbatim (`100 million yen`); unit conversion and
//! derived indicators belong downstream, not to this layer.
//!
//! A numeric value is carried as the bit pattern of an IEEE-754 binary64
//! number (`f64::to_bits`), so that this layer can check it without floating
//! point arithmetic.
use vstd::prelude::*;

use crate::error::{JapanCbError, JapanCbErrorKind, JapanCbResult};
use crate::text::{is_blank, str_eq, str_is_blank, trim, trim_str};
use crate::value::metric::JapanCbMetricCode;
use crate::value::period::{Frequency, Period};

verus! {

/// The source unit that the register declares (hundred million yen).
pub const SOURCE_UNIT_HUNDRED_MILLION_YEN: &'static str = "100 million yen";

/// A source unit, kept as the source wrote it (trimmed), never converted.
#[non_exhaustive]
#[derive(Debug, Clone, PartialEq, Eq, Hash)]
pub struct Unit(String);

impl View for Unit {
    type V = Seq<char>;

    closed spec fn view(&self) -> Seq<char> {
        self.0@
    }
}

impl Unit {
    /// Builds a unit from `text` without its surrounding whitespace; `Missing`
    /// when nothing but whitespace is left.
    pub fn try_new(text: &str) -> (r: JapanCbResult<Unit>)
        ensures
            r is Ok <==> !is_blank(text@),
            r matches Ok(u) ==> u@ == trim(text@),
            r matches Err(e) ==> e.kind() == JapanCbErrorKind::Missing && e.detail() == "源侧单位为空"@,
    {
        if str_is_blank(text) {
            return Err(JapanCbError::Missing(String::from_str("源侧单位为空")));
        }
        Ok(Unit(String::from_str(trim_str(text))))
    }

    /// The unit's text.
    pub fn text(&self) -> (r: &str)
        ensures
            r@ == self@,
    {
        self.0.as_str()
    }

    /// The display form: the unit's text.
    pub fn to_string(&self) -> (r: String)
        ensures
            r@ == self@,
    {
        String::from_str(self.0.as_str())
    }
}

/// A source revision mark, kept as the source wrote it (trimmed). The register
/// does not define its form, so it is carried, never interpreted.
#[non_exhaustive]
#[derive(Debug, Clone, PartialEq, Eq, Hash)]
pub struct Revision(String);

impl View for Revision {
    type V = Seq<char>;

    closed spec fn view(&self) -> Seq<char> {
        self.0@
    }
}

impl Revision {
    /// Builds a revision mark from `text` without its surrounding whitespace;
    /// `Missing` when nothing but whitespace is left.
    pub fn try_new(text: &str) -> (r: JapanCbResult<Revision>)
        ensures
            r is Ok <==> !is_blank(text@),
            r matches Ok(v) ==> v@ == trim(text@),
            r matches Err(e) ==> e.kind() == JapanCbErrorKind::Missing && e.detail() == "修订标识为空"@,
    {
        if str_is_blank(text) {
            return Err(JapanCbError::Missing(String::from_str("修订标识为空")));
        }
        Ok(Revision(String::from_str(trim_str(text))))
    }

    /// The revision mark's text.
    pub fn text(&self) -> (r: &str)
        ensures
            r@ == self@,
    {
        self.0.as_str()
    }

    /// The display form: the revision mark's text.
    pub fn to_string(&self) -> (r: String)
        ensures
            r@ == self@,
    {
        String::from_str(self.0.as_str())
    }
}

/// Why a value is absent. This is the library's own classification: the
/// source's status text is carried verbatim, never interpreted.
#[non_exhaustive]
#[derive(Debug, Clone, PartialEq, Eq, Hash)]
pub enum JapanCbMissingReason {
    /// The source gave a status mark (kept verbatim).
    SourceStatus(String),
    /// The source gave no usable status mark.
    Unspecified,
}

/// The model of a missing reason: the source's status text, if any.
impl View for JapanCbMissingReason {
    type V = Option<Seq<char>>;

    open spec fn view(&self) -> Option<Seq<char>> {
        match self {
            JapanCbMissingReason::SourceStatus(s) => Some(s@),
            JapanCbMissingReason::Unspecified => None,
        }
    }
}

impl JapanCbMissingReason {
    /// A readable description: the status text, or a fixed phrase when the
    /// source gave none.
    pub fn describe(&self) -> (r: &str)
        ensures
            r@ == match self@ {
                Some(s) => s,
                None => "源侧未给出状态标记"@,
            },
    {
        match self {
            JapanCbMissingReason::SourceStatus(status) => status.as_str(),
            JapanCbMissingReason::Unspecified => "源侧未给出状态标记",
        }
    }
}

/// The bits of a binary64 number whose exponent field is all ones encode an
/// infinity or a NaN; every other pattern is a finite number.
pub open spec fn is_finite_bits(bits: u64) -> bool {
    (bits >> 52u64) & 0x7ffu64 != 0x7ffu64
}

/// The bits encode a NaN.
pub open spec fn is_nan_bits(bits: u64) -> bool {
    (bits >> 52u64) & 0x7ffu64 == 0x7ffu64 && bits & 0xf_ffff_ffff_ffffu64 != 0
}

/// The bits encode positive or negative zero.
pub open spec fn is_zero_bits(bits: u64) -> bool {
    bits & 0x7fff_ffff_ffff_ffffu64 == 0
}

/// IEEE-754 equality of two binary64 numbers given by their bits: NaN equals
/// nothing, the two zeros are equal, other numbers are equal when their bits are.
pub open spec fn float_bits_eq(a: u64, b: u64) -> bool {
    !is_nan_bits(a) && !is_nan_bits(b) && (a == b || (is_zero_bits(a) && is_zero_bits(b)))
}

/// An observation: a number, or a named absence. An absence is never turned
/// into zero.
#[non_exhaustive]
#[derive(Debug, Clone)]
pub enum DataPointValue {
    /// The number the source gave, as the bits of a binary64 (`f64::to_bits`).
    Value(u64),
    /// Absent, with its reason.
    Missing(JapanCbMissingReason),
}

/// The model of an observation: a number's bits, or an absence with the
/// source's status text, if any.
pub enum ObservationModel {
    /// A number, as binary64 bits.
    Number(u64),
    /// An absence; `Some(status)` when the source gave a status mark.
    Absent(Option<Seq<char>>),
}

impl View for DataPointValue {
    type V = ObservationModel;

    open spec fn view(&self) -> ObservationModel {
        match self {
            DataPointValue::Value(bits) => ObservationModel::Number(*bits),
            DataPointValue::Missing(reason) => ObservationModel::Absent(reason@),
        }
    }
}

impl DataPointValue {
    /// The number's bits when there is a number.
    pub fn value(&self) -> (r: Option<u64>)
        ensures
            r == match self {
                DataPointValue::Value(b) => Some(*b),
                DataPointValue::Missing(_) => None::<u64>,
            },
    {
        match self {
            DataPointValue::Value(bits) => Some(*bits),
            DataPointValue::Missing(_) => None,
        }
    }

    /// Whether the value is absent.
    pub fn is_missing(&self) -> (r: bool)
        ensures
            r == (self is Missing),
    {
        match self {
            DataPointValue::Value(_) => false,
            DataPointValue::Missing(_) => true,
        }
    }

    /// The reason of an absence; `None` when there is a number.
    pub fn missing_reason(&self) -> (r: Option<&JapanCbMissingReason>)
        ensures
            r == match self {
                DataPointValue::Value(_) => None::<&JapanCbMissingReason>,
                DataPointValue::Missing(reason) => Some(reason),
            },
    {
        match self {
            DataPointValue::Value(_) => None,
            DataPointValue::Missing(reason) => Some(reason),
        }
    }
}

impl PartialEq for DataPointValue {
    fn eq(&self, other: &Self) -> (r: bool) {
        match (self, other) {
            (DataPointValue::Value(a), DataPointValue::Value(b)) => {
                let a = *a;
                let b = *b;
                let a_nan = (a >> 52u64) & 0x7ffu64 == 0x7ffu64 && a & 0xf_ffff_ffff_ffffu64 != 0;
                let b_nan = (b >> 52u64) & 0x7ffu64 == 0x7ffu64 && b & 0xf_ffff_ffff_ffffu64 != 0;
                let zeros = a & 0x7fff_ffff_ffff_ffffu64 == 0 && b & 0x7fff_ffff_ffff_ffffu64 == 0;
                !a_nan && !b_nan && (a == b || zeros)
            },
            (DataPointValue::Missing(x), DataPointValue::Missing(y)) => match (x, y) {
                (
                    JapanCbMissingReason::SourceStatus(s),
                    JapanCbMissingReason::SourceStatus(t),
                ) => str_eq(s.as_str(), t.as_str()),
                (JapanCbMissingReason::Unspecified, JapanCbMissingReason::Unspecified) => true,
                _ => false,
            },
            _ => false,
        }
    }
}

impl vstd::std_specs::cmp::PartialEqSpecImpl for DataPointValue {
    open spec fn obeys_eq_spec() -> bool {
        true
    }

    open spec fn eq_spec(&self, other: &DataPointValue) -> bool {
        match (self, other) {
            (DataPointValue::Value(a), DataPointValue::Value(b)) => float_bits_eq(*a, *b),
            (DataPointValue::Missing(x), DataPointValue::Missing(y)) => x@ == y@,
            _ => false,
        }
    }
}

/// One Bank of Japan source fact.
///
/// The fields follow the register's data point, minus three that are left out
/// on purpose (see [`ensure_no_converted_or_derived_field`]): a converted
/// value, a content fingerprint and a storage key.
#[non_exhaustive]
#[derive(Debug, Clone, PartialEq)]
pub struct JapanCbDataPoint {
    /// The `JP.*` metric code.
    pub metric_code: JapanCbMetricCode,
    /// The business period.
    pub period: Period,
    /// The frequency.
    pub frequency: Frequency,
    /// The observation: a number or a named absence.
    pub value: DataPointValue,
    /// The source unit, verbatim.
    pub unit: Unit,
    /// The revision mark; `None` where the source has no vintage, never made up.
    pub revision: Option<Revision>,
}

/// The model of a data point: its fields' texts and values.
pub struct DataPointModel {
    /// The metric code's text.
    pub metric_code: Seq<char>,
    /// The period.
    pub period: Period,
    /// The frequency.
    pub frequency: Frequency,
    /// The observation.
    pub value: ObservationModel,
    /// The unit's text.
    pub unit: Seq<char>,
    /// The revision mark's text, if any.
    pub revision: Option<Seq<char>>,
}

impl View for JapanCbDataPoint {
    type V = DataPointModel;

    open spec fn view(&self) -> DataPointModel {
        DataPointModel {
            metric_code: self.metric_code@,
            period: self.period,
            frequency: self.frequency,
            value: self.value@,
            unit: self.unit@,
            revision: match self.revision {
                Some(r) => Some(r@),
                None => None,
            },
        }
    }
}

/// What is wrong with a data point, checked in order: a number that is not
/// finite (`Invalid`), a blank metric code (`Missing`), an absence whose
/// source status is blank (`SemanticallyRejected`), and a frequency that does
/// not match the period's granularity (`SemanticallyRejected`; only `Weekly`
/// and `Irregular`, which no period has, may differ). `None` when it is sound.
pub open spec fn data_point_problem(
    metric_code: Seq<char>,
    period: Period,
    frequency: Frequency,
    value: ObservationModel,
) -> Option<JapanCbErrorKind> {
    if value matches ObservationModel::Number(bits) && !is_finite_bits(bits) {
        Some(JapanCbErrorKind::Invalid)
    } else if is_blank(metric_code) {
        Some(JapanCbErrorKind::Missing)
    } else if value matches ObservationModel::Absent(Some(status)) && is_blank(status) {
        Some(JapanCbErrorKind::SemanticallyRejected)
    } else if !(frequency == Frequency::Weekly || frequency == Frequency::Irregular) && frequency
        != period.frequency_spec() {
        Some(JapanCbErrorKind::SemanticallyRejected)
    } else {
        None
    }
}

/// The detail of the error for the first problem that [`data_point_problem`]
/// finds.
pub open spec fn data_point_problem_detail(
    metric_code: Seq<char>,
    period: Period,
    frequency: Frequency,
    value: ObservationModel,
) -> Seq<char> {
    if value matches ObservationModel::Number(bits) && !is_finite_bits(bits) {
        "观测值必须是有限数值"@
    } else if is_blank(metric_code) {
        "metric_code 为空"@
    } else if value matches ObservationModel::Absent(Some(status)) && is_blank(status) {
        "缺失原因声明为源侧状态，但状态原文为空"@
    } else {
        "频率 "@ + frequency.name_spec() + " 与期间粒度 "@ + period.frequency_spec().name_spec()
            + " 不一致"@
    }
}

/// The identity of a data point: `metric_code:period key:revision`, with
/// `none` for a missing revision.
pub open spec fn data_point_id_spec(m: DataPointModel) -> Seq<char> {
    m.metric_code + seq![':'] + m.period.key_spec() + seq![':'] + match m.revision {
        Some(r) => r,
        None => seq!['n', 'o', 'n', 'e'],
    }
}

/// Only `Weekly` and `Irregular` may differ from the period's granularity: a
/// data point whose other checks pass is accepted exactly when its frequency
/// is the one its period's kind calls for (a day `Daily`, a ten-day period
/// `TenDay`, a month `Monthly`, a quarter `Quarterly`, a year `Annual`, an
/// event `Event`), or is `Weekly` or `Irregular`; otherwise it is refused as
/// `SemanticallyRejected`.
pub proof fn lemma_frequency_matches_granularity(
    metric_code: Seq<char>,
    period: Period,
    frequency: Frequency,
    value: ObservationModel,
)
    requires
        !is_blank(metric_code),
        match value {
            ObservationModel::Number(bits) => is_finite_bits(bits),
            ObservationModel::Absent(Some(status)) => !is_blank(status),
            ObservationModel::Absent(None) => true,
        },
    ensures
        data_point_problem(metric_code, period, frequency, value) is None <==> (frequency
            == Frequency::Weekly || frequency == Frequency::Irregular || match period {
            Period::Day(_) => frequency == Frequency::Daily,
            Period::TenDay { .. } => frequency == Frequency::TenDay,
            Period::Month { .. } => frequency == Frequency::Monthly,
            Period::Quarter { .. } => frequency == Frequency::Quarterly,
            Period::Year(_) => frequency == Frequency::Annual,
            Period::Event { .. } => frequency == Frequency::Event,
        }),
        data_point_problem(metric_code, period, frequency, value) is Some ==> data_point_problem(
            metric_code,
            period,
            frequency,
            value,
        ) == Some(JapanCbErrorKind::SemanticallyRejected),
{
}

/// The identity tells periods apart: two data points with the same metric
/// code and revision but different (valid) periods have different
/// identities, so an event and a day on the same date never collide.
pub proof fn lemma_data_point_id_separates_periods(a: DataPointModel, b: DataPointModel)
    requires
        a.metric_code == b.metric_code,
        a.revision == b.revision,
        a.period.wf(),
        b.period.wf(),
        data_point_id_spec(a) == data_point_id_spec(b),
    ensures
        a.period == b.period,
{
    let ka = a.period.key_spec();
    let kb = b.period.key_spec();
    let r = match a.revision {
        Some(t) => t,
        None => seq!['n', 'o', 'n', 'e'],
    };
    let mc = a.metric_code;
    let ida = mc + seq![':'] + ka + seq![':'] + r;
    let idb = mc + seq![':'] + kb + seq![':'] + r;
    assert(ida == data_point_id_spec(a));
    assert(idb == data_point_id_spec(b));
    assert(ka.len() == kb.len());
    let lo: int = mc.len() as int + 1;
    assert(ida.subrange(lo, lo + ka.len() as int) =~= ka);
    assert(idb.subrange(lo, lo + kb.len() as int) =~= kb);
    crate::value::period::lemma_period_key_injective(a.period, b.period);
}

/// The identity tells revisions apart: two data points with the same metric
/// code and period, both carrying a revision mark, have the same identity only
/// when their marks are the same.
pub proof fn lemma_data_point_id_separates_revisions(a: DataPointModel, b: DataPointModel)
    requires
        a.metric_code == b.metric_code,
        a.period == b.period,
        a.revision is Some,
        b.revision is Some,
        data_point_id_spec(a) == data_point_id_spec(b),
    ensures
        a.revision == b.revision,
{
    let head = a.metric_code + seq![':'] + a.period.key_spec() + seq![':'];
    let ida = head + a.revision->0;
    let idb = head + b.revision->0;
    assert(ida == data_point_id_spec(a));
    assert(idb == data_point_id_spec(b));
    assert(ida.skip(head.len() as int) =~= a.revision->0);
    assert(idb.skip(head.len() as int) =~= b.revision->0);
}

/// A number whose exponent field is all ones (an infinity or a NaN) is never
/// accepted: the data point is refused as `Invalid`, whatever else it holds.
pub proof fn lemma_non_finite_value_refused(
    metric_code: Seq<char>,
    period: Period,
    frequency: Frequency,
    bits: u64,
)
    requires
        (bits >> 52u64) & 0x7ffu64 == 0x7ffu64,
    ensures
        data_point_problem(metric_code, period, frequency, ObservationModel::Number(bits)) == Some(
            JapanCbErrorKind::Invalid,
        ),
{
}

impl JapanCbDataPoint {
    /// What is wrong with this data point, if anything.
    pub open spec fn problem(&self) -> Option<JapanCbErrorKind> {
        data_point_problem(self.metric_code@, self.period, self.frequency, self.value@)
    }

    /// Builds and checks a data point.
    pub fn new(
        metric_code: JapanCbMetricCode,
        period: Period,
        frequency: Frequency,
        value: DataPointValue,
        unit: Unit,
        revision: Option<Revision>,
    ) -> (r: JapanCbResult<JapanCbDataPoint>)
        ensures
            r is Ok <==> data_point_problem(metric_code@, period, frequency, value@) is None,
            r matches Ok(d) ==> d == (JapanCbDataPoint {
                metric_code,
                period,
                frequency,
                value,
                unit,
                revision,
            }),
            r matches Err(e) ==> data_point_problem(metric_code@, period, frequency, value@) == Some(
                e.kind(),
            ) && e.detail() == data_point_problem_detail(
                metric_code@,
                period,
                frequency,
                value@,
            ),
    {
        let data_point = JapanCbDataPoint { metric_code, period, frequency, value, unit, revision };
        match validate_data_point(&data_point) {
            Ok(()) => Ok(data_point),
            Err(e) => Err(e),
        }
    }

    /// The identity: `metric_code:period key:revision`.
    pub fn data_point_id(&self) -> (r: String)
        ensures
            r@ == data_point_id_spec(self@),
    {
        proof {
            reveal_strlit(":");
            reveal_strlit("none");
        }
        let mut out = String::from_str(self.metric_code.as_str());
        out.append(":");
        let key = self.period.key();
        out.append(key.as_str());
        out.append(":");
        match &self.revision {
            Some(revision) => out.append(revision.text()),
            None => out.append("none"),
        }
        assert(out@ =~= data_point_id_spec(self@));
        out
    }
}

/// Checks that a data point is complete and consistent.
pub fn validate_data_point(data_point: &JapanCbDataPoint) -> (r: JapanCbResult<()>)
    ensures
        r is Ok <==> data_point.problem() is None,
        r matches Err(e) ==> data_point.problem() == Some(e.kind()) && e.detail()
            == data_point_problem_detail(
            data_point.metric_code@,
            data_point.period,
            data_point.frequency,
            data_point.value@,
        ),
{
    if let DataPointValue::Value(bits) = data_point.value {
        if (bits >> 52u64) & 0x7ffu64 == 0x7ffu64 {
            return Err(JapanCbError::Invalid(String::from_str("观测值必须是有限数值")));
        }
    }
    if str_is_blank(data_point.metric_code.as_str()) {
        return Err(JapanCbError::Missing(String::from_str("metric_code 为空")));
    }
    if let DataPointValue::Missing(JapanCbMissingReason::SourceStatus(status)) = &data_point.value {
        if str_is_blank(status.as_str()) {
            return Err(
                JapanCbError::SemanticallyRejected(
                    String::from_str("缺失原因声明为源侧状态，但状态原文为空"),
                ),
            );
        }
    }
    let frequency = data_point.frequency;
    if !(frequency == Frequency::Weekly || frequency == Frequency::Irregular) && frequency
        != data_point.period.frequency() {
        let mut m = String::from_str("频率 ");
        m.append(frequency.name());
        m.append(" 与期间粒度 ");
        m.append(data_point.period.frequency().name());
        m.append(" 不一致");
        return Err(JapanCbError::SemanticallyRejected(m));
    }
    Ok(())
}

/// Declares that a converted value (`value_usd`), a content fingerprint and a
/// storage key do not belong to this layer: always `NotApplicable`.
pub fn ensure_no_converted_or_derived_field() -> (r: JapanCbResult<()>)
    ensures
        r matches Err(e) && e.kind() == JapanCbErrorKind::NotApplicable && e.detail()
            == "value_usd（换算）/ fingerprint（派生哈希）/ raw_object_key（存储寻址）均不属于源事实层"@,
{
    Err(
        JapanCbError::NotApplicable(
            String::from_str(
                "value_usd（换算）/ fingerprint（派生哈希）/ raw_object_key（存储寻址）均不属于源事实层",
            ),
        ),
    )
}

} // verus!
