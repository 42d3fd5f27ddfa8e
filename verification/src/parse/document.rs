//! Offline data point documents.
//!
//! A document is `{ "_synthetic": <bool>, "_note": <string>, "data_points": [ … ] }`.
//! The JSON text is read into [`DataPointDocument`] by the JSON reader, which
//! refuses unknown and missing fields; this module holds every rule after
//! that: the synthetic marking, each field's check, and the refusal of a
//! repeated identity (no deduplication). Any failure fails the whole document.
use vstd::prelude::*;

use crate::error::{JapanCbError, JapanCbErrorKind, JapanCbResult};
use crate::text::{decimal, is_blank, push_decimal, str_eq, str_is_blank, trim};
use crate::value::datapoint::{
    data_point_id_spec, data_point_problem, data_point_problem_detail, DataPointModel, DataPointValue, JapanCbDataPoint,
    JapanCbMissingReason, ObservationModel, Revision, Unit,
};
use crate::value::metric::{metric_code_problem, metric_code_problem_detail, validate_metric_code};
use crate::value::period::{
    declared_frequency_named, is_declared_frequency_name, is_period_key, lemma_frequency_name_injective,
    lemma_period_of_key, period_of_key, period_parse_detail, Frequency, Period,
};

verus! {

/// One data point as the document writes it, its fields not yet checked.
pub struct DataPointRecord {
    /// The `JP.*` metric code.
    pub metric_code: String,
    /// The period key.
    pub period: String,
    /// The frequency, one of the register's declared period values.
    pub frequency: String,
    /// The number as binary64 bits (`f64::to_bits`); `None` when the value is null.
    pub value: Option<u64>,
    /// The source status text, used when the value is null.
    pub obs_status: Option<String>,
    /// The source unit.
    pub unit: String,
    /// The source revision mark.
    pub revision: Option<String>,
}

/// A whole document as read.
pub struct DataPointDocument {
    /// The synthetic-sample marking; must be present and `true`.
    pub synthetic: bool,
    /// The note that says the sample is not real source data; must not be blank.
    pub note: String,
    /// The data points, in document order.
    pub data_points: Vec<DataPointRecord>,
}

/// The observation a record describes: its number, or an absence that carries
/// the status text when that text is not blank.
pub open spec fn record_observation(r: DataPointRecord) -> ObservationModel {
    match r.value {
        Some(bits) => ObservationModel::Number(bits),
        None => ObservationModel::Absent(
            match r.obs_status {
                Some(s) => if is_blank(s@) {
                    None
                } else {
                    Some(s@)
                },
                None => None,
            },
        ),
    }
}

/// What is wrong with a record, checked in order: the metric code's shape,
/// the period key (`Invalid`), the frequency (`SemanticallyRejected` unless
/// declared), the unit (`Missing` when blank), a blank revision (`Missing`),
/// then the data point's own checks. `None` when the record is sound.
pub open spec fn record_problem(r: DataPointRecord) -> Option<JapanCbErrorKind> {
    if metric_code_problem(r.metric_code@) is Some {
        metric_code_problem(r.metric_code@)
    } else if !is_period_key(r.period@) {
        Some(JapanCbErrorKind::Invalid)
    } else if !is_declared_frequency_name(r.frequency@) {
        Some(JapanCbErrorKind::SemanticallyRejected)
    } else if is_blank(r.unit@) {
        Some(JapanCbErrorKind::Missing)
    } else if r.revision matches Some(t) && is_blank(t@) {
        Some(JapanCbErrorKind::Missing)
    } else {
        data_point_problem(
            r.metric_code@,
            period_of_key(r.period@),
            declared_frequency_named(r.frequency@),
            record_observation(r),
        )
    }
}

/// The detail of the error for the first problem that [`record_problem`]
/// finds.
pub open spec fn record_problem_detail(r: DataPointRecord) -> Seq<char> {
    if metric_code_problem(r.metric_code@) is Some {
        metric_code_problem_detail(r.metric_code@)
    } else if !is_period_key(r.period@) {
        period_parse_detail(r.period@)
    } else if !is_declared_frequency_name(r.frequency@) {
        "清单未声明该期间取值（清单只有 Daily|TenDay|Monthly|Quarterly|Annual）"@
    } else if is_blank(r.unit@) {
        "源侧单位为空"@
    } else if r.revision matches Some(t) && is_blank(t@) {
        "修订标识为空"@
    } else {
        data_point_problem_detail(
            r.metric_code@,
            period_of_key(r.period@),
            declared_frequency_named(r.frequency@),
            record_observation(r),
        )
    }
}

/// The data point a sound record becomes.
pub open spec fn record_model(r: DataPointRecord) -> DataPointModel {
    DataPointModel {
        metric_code: r.metric_code@,
        period: period_of_key(r.period@),
        frequency: declared_frequency_named(r.frequency@),
        value: record_observation(r),
        unit: trim(r.unit@),
        revision: match r.revision {
            Some(t) => Some(trim(t@)),
            None => None,
        },
    }
}

/// Some data point among `ps` has identity `id`.
pub open spec fn has_id(ps: Seq<DataPointModel>, id: Seq<char>) -> bool {
    exists|k: int| 0 <= k < ps.len() && data_point_id_spec(ps[k]) == id
}

/// The outcome of the first `n` records: the first failure (its kind, and its
/// detail after the record's position), the refusal of an identity seen
/// before (`SemanticallyRejected`), or all their data points in order.
pub open spec fn records_outcome(rs: Seq<DataPointRecord>, n: nat) -> Result<
    Seq<DataPointModel>,
    (JapanCbErrorKind, Seq<char>),
>
    decreases n,
{
    if n == 0 {
        Ok(Seq::empty())
    } else {
        match records_outcome(rs, (n - 1) as nat) {
            Err(k) => Err(k),
            Ok(ps) => match record_problem(rs[n - 1]) {
                Some(k) => Err((k, record_prefix((n - 1) as nat) + record_problem_detail(rs[n - 1]))),
                None => if has_id(ps, data_point_id_spec(record_model(rs[n - 1]))) {
                    Err(
                        (
                            JapanCbErrorKind::SemanticallyRejected,
                            duplicate_detail((n - 1) as nat),
                        ),
                    )
                } else {
                    Ok(ps.push(record_model(rs[n - 1])))
                },
            },
        }
    }
}

/// The detail of the refusal of record `index`, whose identity was seen
/// before.
pub open spec fn duplicate_detail(index: nat) -> Seq<char> {
    "第 "@ + decimal(index) + " 条数据点身份重复（本库选择拒绝而非去重）"@
}

/// The outcome of a document: refused unless marked synthetic
/// (`SemanticallyRejected`) with a note that is not blank (`Missing`);
/// otherwise the outcome of all its records.
pub open spec fn document_outcome(doc: DataPointDocument) -> Result<
    Seq<DataPointModel>,
    (JapanCbErrorKind, Seq<char>),
> {
    if !doc.synthetic {
        Err(
            (
                JapanCbErrorKind::SemanticallyRejected,
                "离线解析只接受显式标注 `_synthetic = true` 的合成样本：本层不得把未标注输入当作源数据"@,
            ),
        )
    } else if is_blank(doc.note@) {
        Err((JapanCbErrorKind::Missing, "`_note` 为空：合成样本必须说明「不是真实源数据」"@))
    } else {
        records_outcome(doc.data_points@, doc.data_points@.len())
    }
}

/// The text put before the detail of an error found in record `index`.
pub open spec fn record_prefix(index: nat) -> Seq<char> {
    "第 "@ + decimal(index) + " 条数据点："@
}

/// The category of a JSON reading error, as the JSON reader reports it.
#[derive(Debug, Clone, Copy, PartialEq, Eq, Structural)]
pub enum JsonErrorCategory {
    /// Reading or writing bytes on a stream failed.
    Io,
    /// The text is not valid JSON.
    Syntax,
    /// The JSON is valid but does not fit the document's shape.
    Data,
    /// The text ended too early.
    Eof,
}

/// The name of a category, as its debug form writes it.
pub open spec fn json_category_name(category: JsonErrorCategory) -> Seq<char> {
    match category {
        JsonErrorCategory::Io => "Io"@,
        JsonErrorCategory::Syntax => "Syntax"@,
        JsonErrorCategory::Data => "Data"@,
        JsonErrorCategory::Eof => "Eof"@,
    }
}

/// The detail of a JSON reading error: the position and the category only,
/// never a piece of the text that was read.
pub open spec fn json_error_detail(line: nat, column: nat, category: JsonErrorCategory) -> Seq<
    char,
> {
    "JSON 文档不可解析（行 "@ + decimal(line) + " 列 "@ + decimal(column) + "，分类 "@
        + json_category_name(category) + "）：请检查字段名、类型与取值形态"@
}

/// `serde_json::Error`, the JSON reader's error, carried as an opaque value.
#[verifier::external_type_specification]
#[verifier::external_body]
pub struct ExJsonReadError(serde_json::Error);

/// The line that `serde_json::Error::line` reports for `error`; it is a field
/// of the error.
pub uninterp spec fn json_line_of(error: serde_json::Error) -> nat;

/// The column that `serde_json::Error::column` reports for `error`; it is a
/// field of the error.
pub uninterp spec fn json_column_of(error: serde_json::Error) -> nat;

/// The category that `serde_json::Error::classify` reports for `error`; it is
/// decided by a field of the error.
pub uninterp spec fn json_category_of(error: serde_json::Error) -> JsonErrorCategory;

/// `serde_json::Error::line`: the one-based line at which reading stopped.
/// Claimed: the result is [`json_line_of`] of the error (the method returns a
/// field). Nothing is stated of the number's value.
#[verifier::external_body]
fn json_error_line(error: &serde_json::Error) -> (line: usize)
    ensures
        line as nat == json_line_of(*error),
{
    error.line()
}

/// `serde_json::Error::column`: the column at which reading stopped.
/// Claimed: the result is [`json_column_of`] of the error (the method returns
/// a field). Nothing is stated of the number's value.
#[verifier::external_body]
fn json_error_column(error: &serde_json::Error) -> (column: usize)
    ensures
        column as nat == json_column_of(*error),
{
    error.column()
}

/// `serde_json::Error::classify`, each of its four categories mapped to the
/// variant of the same name. Claimed: the result is [`json_category_of`] of
/// the error (the method matches on a field). Nothing is stated of which
/// category that is.
#[verifier::external_body]
fn json_error_category(error: &serde_json::Error) -> (category: JsonErrorCategory)
    ensures
        category == json_category_of(*error),
{
    match error.classify() {
        serde_json::error::Category::Io => JsonErrorCategory::Io,
        serde_json::error::Category::Syntax => JsonErrorCategory::Syntax,
        serde_json::error::Category::Data => JsonErrorCategory::Data,
        serde_json::error::Category::Eof => JsonErrorCategory::Eof,
    }
}

/// The error for a JSON document that could not be read at `line`, `column`.
pub fn json_reading_error(line: usize, column: usize, category: JsonErrorCategory) -> (e:
    JapanCbError)
    ensures
        e.kind() == JapanCbErrorKind::Invalid,
        e.detail() == json_error_detail(line as nat, column as nat, category),
{
    let mut m = String::from_str("JSON 文档不可解析（行 ");
    push_decimal(&mut m, line as u64);
    m.append(" 列 ");
    push_decimal(&mut m, column as u64);
    m.append("，分类 ");
    let name = match category {
        JsonErrorCategory::Io => "Io",
        JsonErrorCategory::Syntax => "Syntax",
        JsonErrorCategory::Data => "Data",
        JsonErrorCategory::Eof => "Eof",
    };
    m.append(name);
    m.append("）：请检查字段名、类型与取值形态");
    JapanCbError::Invalid(m)
}

/// Turns a JSON reading error into an error of this library. Only the
/// position and the category are carried over: the reader's own message would
/// echo the offending value.
pub fn describe_json_error(error: serde_json::Error) -> (e: JapanCbError)
    ensures
        e.kind() == JapanCbErrorKind::Invalid,
        e.detail() == json_error_detail(
            json_line_of(error),
            json_column_of(error),
            json_category_of(error),
        ),
{
    let line = json_error_line(&error);
    let column = json_error_column(&error);
    let category = json_error_category(&error);
    json_reading_error(line, column, category)
}

/// Checks one record and turns it into a data point.
pub fn data_point_from_record(r: &DataPointRecord) -> (res: JapanCbResult<JapanCbDataPoint>)
    ensures
        res matches Ok(d) ==> record_problem(*r) is None && d@ == record_model(*r),
        res matches Err(e) ==> record_problem(*r) == Some(e.kind()) && e.detail()
            == record_problem_detail(*r),
{
    let metric_code = validate_metric_code(r.metric_code.as_str())?;
    let period = Period::parse(r.period.as_str())?;
    proof {
        lemma_period_of_key(period);
    }
    let frequency = Frequency::from_source_token(r.frequency.as_str())?;
    proof {
        lemma_frequency_name_injective(frequency, declared_frequency_named(r.frequency@));
    }
    let unit = Unit::try_new(r.unit.as_str())?;
    let revision = match &r.revision {
        Some(text) => Some(Revision::try_new(text.as_str())?),
        None => None,
    };
    let value = match r.value {
        Some(bits) => DataPointValue::Value(bits),
        None => DataPointValue::Missing(
            match &r.obs_status {
                Some(status) => if str_is_blank(status.as_str()) {
                    JapanCbMissingReason::Unspecified
                } else {
                    JapanCbMissingReason::SourceStatus(String::from_str(status.as_str()))
                },
                None => JapanCbMissingReason::Unspecified,
            },
        ),
    };
    assert(value@ == record_observation(*r));
    let d = JapanCbDataPoint::new(metric_code, period, frequency, value, unit, revision)?;
    assert(d@ =~= record_model(*r));
    Ok(d)
}

/// The same error, its detail prefixed with the position of the record it
/// came from; the kind is kept.
pub fn annotate(index: usize, error: JapanCbError) -> (r: JapanCbError)
    ensures
        r.kind() == error.kind(),
        r.detail() == record_prefix(index as nat) + error.detail(),
{
    let mut m = String::from_str("第 ");
    push_decimal(&mut m, index as u64);
    m.append(" 条数据点：");
    let kind = error.kind();
    let detail = match error {
        JapanCbError::Invalid(d) => d,
        JapanCbError::Missing(d) => d,
        JapanCbError::AuthorizationDenied(d) => d,
        JapanCbError::RoutedElsewhere(d) => d,
        JapanCbError::WriteAuthorityDenied(d) => d,
        JapanCbError::SemanticallyRejected(d) => d,
        JapanCbError::NotApplicable(d) => d,
        JapanCbError::Invariant(d) => d,
    };
    m.append(detail.as_str());
    JapanCbError::of_kind(kind, m)
}

/// Whether `seen` holds `text`.
fn contains_text(seen: &Vec<String>, text: &String) -> (r: bool)
    ensures
        r == exists|k: int| 0 <= k < seen@.len() && seen@[k]@ == text@,
{
    let mut i: usize = 0;
    while i < seen.len()
        invariant
            i <= seen.len(),
            forall|k: int| 0 <= k < i ==> seen@[k]@ != text@,
        decreases seen.len() - i,
    {
        if str_eq(seen[i].as_str(), text.as_str()) {
            return true;
        }
        i = i + 1;
    }
    false
}

/// Checks a whole document and returns its data points in document order.
///
/// The document must be marked synthetic with a note that is not blank; each
/// record must pass its checks; no identity may occur twice. The first
/// failure fails the whole document, and no partial result is returned.
pub fn data_points_from_document(doc: &DataPointDocument) -> (r: JapanCbResult<
    Vec<JapanCbDataPoint>,
>)
    ensures
        r matches Ok(points) ==> document_outcome(*doc) == Ok::<
            Seq<DataPointModel>,
            (JapanCbErrorKind, Seq<char>),
        >(points@.map_values(|p: JapanCbDataPoint| p@)),
        r matches Err(e) ==> document_outcome(*doc) == Err::<
            Seq<DataPointModel>,
            (JapanCbErrorKind, Seq<char>),
        >((e.kind(), e.detail())),
{
    if !doc.synthetic {
        return Err(
            JapanCbError::SemanticallyRejected(
                String::from_str(
                    "离线解析只接受显式标注 `_synthetic = true` 的合成样本：本层不得把未标注输入当作源数据",
                ),
            ),
        );
    }
    if str_is_blank(doc.note.as_str()) {
        return Err(
            JapanCbError::Missing(
                String::from_str("`_note` 为空：合成样本必须说明「不是真实源数据」"),
            ),
        );
    }
    let ghost rs = doc.data_points@;
    let mut points: Vec<JapanCbDataPoint> = Vec::new();
    let mut seen: Vec<String> = Vec::new();
    assert(points@.map_values(|p: JapanCbDataPoint| p@) =~= Seq::<DataPointModel>::empty());
    let mut i: usize = 0;
    while i < doc.data_points.len()
        invariant
            rs == doc.data_points@,
            i <= rs.len(),
            doc.synthetic,
            !is_blank(doc.note@),
            records_outcome(rs, i as nat) == Ok::<Seq<DataPointModel>, (JapanCbErrorKind, Seq<char>)>(
                points@.map_values(|p: JapanCbDataPoint| p@),
            ),
            seen@.len() == points@.len(),
            forall|k: int| 0 <= k < seen@.len() ==> #[trigger] seen@[k]@ == data_point_id_spec(
                points@[k]@,
            ),
        decreases rs.len() - i,
    {
        let ghost ps = points@.map_values(|p: JapanCbDataPoint| p@);
        let point = match data_point_from_record(&doc.data_points[i]) {
            Ok(p) => p,
            Err(e) => {
                proof {
                    lemma_records_outcome_err_persists(rs, (i + 1) as nat, rs.len());
                }
                return Err(annotate(i, e));
            },
        };
        let identity = point.data_point_id();
        if contains_text(&seen, &identity) {
            proof {
                let k = choose|k: int| 0 <= k < seen@.len() && seen@[k]@ == identity@;
                assert(ps[k] == points@[k]@);
                assert(has_id(ps, data_point_id_spec(record_model(rs[i as int]))));
                lemma_records_outcome_err_persists(rs, (i + 1) as nat, rs.len());
            }
            let mut m = String::from_str("第 ");
            push_decimal(&mut m, i as u64);
            m.append(" 条数据点身份重复（本库选择拒绝而非去重）");
            return Err(JapanCbError::SemanticallyRejected(m));
        }
        proof {
            if has_id(ps, data_point_id_spec(record_model(rs[i as int]))) {
                let k = choose|k: int|
                    0 <= k < ps.len() && data_point_id_spec(ps[k]) == data_point_id_spec(
                        record_model(rs[i as int]),
                    );
                assert(seen@[k]@ == identity@);
            }
        }
        seen.push(identity);
        points.push(point);
        proof {
            assert(points@.map_values(|p: JapanCbDataPoint| p@) =~= ps.push(
                record_model(rs[i as int]),
            ));
        }
        i = i + 1;
    }
    Ok(points)
}

/// What an accepted document gives: one data point per record, in order, each
/// the record's own, with no identity twice.
pub proof fn lemma_accepted_document(doc: DataPointDocument)
    requires
        document_outcome(doc) is Ok,
    ensures
        ({
            let ps = document_outcome(doc)->Ok_0;
            &&& ps.len() == doc.data_points@.len()
            &&& forall|i: int|
                0 <= i < ps.len() ==> record_problem(doc.data_points@[i]) is None && #[trigger] ps[i]
                    == record_model(doc.data_points@[i])
            &&& forall|i: int, j: int|
                0 <= i < ps.len() && 0 <= j < ps.len() && i != j ==> data_point_id_spec(
                    #[trigger] ps[i],
                ) != data_point_id_spec(#[trigger] ps[j])
        }),
{
    lemma_records_outcome_ok(doc.data_points@, doc.data_points@.len());
}

/// A record's number is kept: when the value field holds a number, the data
/// point it becomes holds exactly that number, whatever the status text says.
/// The status text only names the reason of a null value, and a status that
/// is blank or absent names no reason.
pub proof fn lemma_record_value_kept(r: DataPointRecord)
    ensures
        r.value matches Some(bits) ==> record_model(r).value == ObservationModel::Number(bits),
        r.value is None ==> record_model(r).value is Absent,
        (r.value is None && r.obs_status is Some && !is_blank(r.obs_status->0@)) ==> record_model(r).value
            == ObservationModel::Absent(Some(r.obs_status->0@)),
        (r.value is None && (r.obs_status is None || is_blank(r.obs_status->0@))) ==> record_model(
            r,
        ).value == ObservationModel::Absent(None),
{
}

/// A failure among the first `n` records is the outcome of every longer prefix.
proof fn lemma_records_outcome_err_persists(rs: Seq<DataPointRecord>, n: nat, m: nat)
    requires
        n <= m,
        records_outcome(rs, n) is Err,
    ensures
        records_outcome(rs, m) == records_outcome(rs, n),
    decreases m - n,
{
    if n < m {
        lemma_records_outcome_err_persists(rs, n, (m - 1) as nat);
    }
}

proof fn lemma_records_outcome_ok(rs: Seq<DataPointRecord>, n: nat)
    requires
        n <= rs.len(),
        records_outcome(rs, n) is Ok,
    ensures
        ({
            let ps = records_outcome(rs, n)->Ok_0;
            &&& ps.len() == n
            &&& forall|i: int|
                0 <= i < n ==> record_problem(rs[i]) is None && #[trigger] ps[i] == record_model(
                    rs[i],
                )
            &&& forall|i: int, j: int|
                0 <= i < n && 0 <= j < n && i != j ==> data_point_id_spec(#[trigger] ps[i])
                    != data_point_id_spec(#[trigger] ps[j])
        }),
    decreases n,
{
    if n > 0 {
        let m = (n - 1) as nat;
        lemma_records_outcome_ok(rs, m);
        let prev = records_outcome(rs, m)->Ok_0;
        let ps = records_outcome(rs, n)->Ok_0;
        let p = record_model(rs[m as int]);
        assert(ps == prev.push(p));
        assert forall|i: int, j: int|
            0 <= i < n && 0 <= j < n && i != j implies data_point_id_spec(#[trigger] ps[i])
            != data_point_id_spec(#[trigger] ps[j]) by {
            if i == m && j < m {
                assert(ps[j] == prev[j]);
                if data_point_id_spec(ps[i]) == data_point_id_spec(ps[j]) {
                    assert(has_id(prev, data_point_id_spec(p)));
                }
            } else if j == m && i < m {
                assert(ps[i] == prev[i]);
                if data_point_id_spec(ps[i]) == data_point_id_spec(ps[j]) {
                    assert(has_id(prev, data_point_id_spec(p)));
                }
            } else if i < m && j < m {
                assert(ps[i] == prev[i]);
                assert(ps[j] == prev[j]);
            }
        }
        assert forall|i: int| 0 <= i < n implies record_problem(rs[i]) is None && #[trigger] ps[i]
            == record_model(rs[i]) by {
            if i < m {
                assert(ps[i] == prev[i]);
            }
        }
    }
}

} // verus!
