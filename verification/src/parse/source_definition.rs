//! Source definitions, written in TOML.
//!
//! The register's source form is a CSV download, Shift-JIS at the source and
//! converted to UTF-8 before it reaches this layer. The definition carries only
//! the fields the register pins down (`kind`, `encoding`, `unit`, `scale`,
//! `metric_codes`); the TOML reader refuses any other field, so a rate-limit
//! number can never be written before authorization. No encoding library is
//! involved: `encoding` only records what the source declares.
use vstd::prelude::*;

use crate::error::{JapanCbError, JapanCbErrorKind, JapanCbResult};
use crate::text::{decimal, is_blank, push_decimal, str_eq, str_is_blank, trim};
use crate::value::datapoint::{is_finite_bits, is_zero_bits, Unit};
use crate::value::metric::{
    declared_metric_codes, metric_code_problem, metric_code_problem_detail, validate_metric_code,
    JapanCbMetricCode,
};

verus! {

/// The source form that the register declares.
pub const SOURCE_KIND_CSV_DOWNLOAD: &'static str = "csv_download";

/// The encoding that the register declares for the source side.
pub const SOURCE_ENCODING_SHIFT_JIS: &'static str = "shift_jis";

/// The encoding this layer requires of its input (after the collector converts it).
pub const PARSER_INPUT_ENCODING: &'static str = "utf-8";

/// A source definition as the TOML document writes it, its fields not yet checked.
pub struct SourceDefinitionRecord {
    /// The source form.
    pub kind: String,
    /// The source-side encoding.
    pub encoding: String,
    /// The source unit.
    pub unit: String,
    /// The source scale as binary64 bits (`f64::to_bits`).
    pub scale: u64,
    /// The metric codes the source covers.
    pub metric_codes: Vec<String>,
}

/// A checked source definition.
#[non_exhaustive]
#[derive(Debug, Clone, PartialEq)]
pub struct JapanCbSourceDefinition {
    kind: String,
    encoding: String,
    unit: Unit,
    scale: u64,
    metric_codes: Vec<JapanCbMetricCode>,
}

/// The model of a source definition.
pub struct SourceDefinitionModel {
    /// The source form.
    pub kind: Seq<char>,
    /// The source-side encoding.
    pub encoding: Seq<char>,
    /// The unit's text.
    pub unit: Seq<char>,
    /// The scale's bits.
    pub scale: u64,
    /// The metric codes' texts, in order.
    pub metric_codes: Seq<Seq<char>>,
}

impl View for JapanCbSourceDefinition {
    type V = SourceDefinitionModel;

    closed spec fn view(&self) -> SourceDefinitionModel {
        SourceDefinitionModel {
            kind: self.kind@,
            encoding: self.encoding@,
            unit: self.unit@,
            scale: self.scale,
            metric_codes: code_texts(self.metric_codes@),
        }
    }
}

/// The texts of some metric codes.
pub open spec fn code_texts(v: Seq<JapanCbMetricCode>) -> Seq<Seq<char>> {
    v.map_values(|c: JapanCbMetricCode| c@)
}

/// The texts of some strings.
pub open spec fn texts(v: Seq<String>) -> Seq<Seq<char>> {
    v.map_values(|s: String| s@)
}

/// What is wrong with the first `n` metric codes, checked in order: a code's
/// shape (its own kind), a code outside the twelve declared
/// (`SemanticallyRejected`), a code listed twice (`SemanticallyRejected`).
pub open spec fn metric_codes_problem(cs: Seq<Seq<char>>, n: nat) -> Option<JapanCbErrorKind>
    decreases n,
{
    if n == 0 {
        None
    } else if metric_codes_problem(cs, (n - 1) as nat) is Some {
        metric_codes_problem(cs, (n - 1) as nat)
    } else if metric_code_problem(cs[n - 1]) is Some {
        metric_code_problem(cs[n - 1])
    } else if !declared_metric_codes().contains(cs[n - 1]) {
        Some(JapanCbErrorKind::SemanticallyRejected)
    } else if cs.take(n - 1).contains(cs[n - 1]) {
        Some(JapanCbErrorKind::SemanticallyRejected)
    } else {
        None
    }
}

/// What is wrong with a source definition, checked in order: a kind other
/// than `csv_download` (`SemanticallyRejected`), a blank encoding (`Missing`),
/// an encoding other than `shift_jis` (`SemanticallyRejected`), a blank unit
/// (`Missing`), a scale that is not a finite non-zero number (`Invalid`), no
/// metric codes (`Missing`), then the metric codes' problems.
pub open spec fn source_definition_problem(r: SourceDefinitionRecord) -> Option<JapanCbErrorKind> {
    let cs = texts(r.metric_codes@);
    if r.kind@ != SOURCE_KIND_CSV_DOWNLOAD@ {
        Some(JapanCbErrorKind::SemanticallyRejected)
    } else if is_blank(r.encoding@) {
        Some(JapanCbErrorKind::Missing)
    } else if r.encoding@ != SOURCE_ENCODING_SHIFT_JIS@ {
        Some(JapanCbErrorKind::SemanticallyRejected)
    } else if is_blank(r.unit@) {
        Some(JapanCbErrorKind::Missing)
    } else if !is_finite_bits(r.scale) || is_zero_bits(r.scale) {
        Some(JapanCbErrorKind::Invalid)
    } else if cs.len() == 0 {
        Some(JapanCbErrorKind::Missing)
    } else {
        metric_codes_problem(cs, cs.len())
    }
}

/// The detail of the error for the first problem among the first `n` metric
/// codes.
pub open spec fn metric_codes_problem_detail(cs: Seq<Seq<char>>, n: nat) -> Seq<char>
    decreases n,
{
    if n == 0 {
        Seq::empty()
    } else if metric_codes_problem(cs, (n - 1) as nat) is Some {
        metric_codes_problem_detail(cs, (n - 1) as nat)
    } else if metric_code_problem(cs[n - 1]) is Some {
        metric_code_problem_detail(cs[n - 1])
    } else if !declared_metric_codes().contains(cs[n - 1]) {
        "清单未声明该 metric_code"@
    } else {
        "metric_codes 中重复声明"@
    }
}

/// The detail of the error for the first problem that
/// [`source_definition_problem`] finds.
pub open spec fn source_definition_problem_detail(r: SourceDefinitionRecord) -> Seq<char> {
    let cs = texts(r.metric_codes@);
    if r.kind@ != SOURCE_KIND_CSV_DOWNLOAD@ {
        "源形态与清单声明的 csv_download 不符"@
    } else if is_blank(r.encoding@) {
        "源侧编码声明为空"@
    } else if r.encoding@ != SOURCE_ENCODING_SHIFT_JIS@ {
        "源侧编码与清单声明的 shift_jis 不符"@
    } else if is_blank(r.unit@) {
        "源侧单位为空"@
    } else if !is_finite_bits(r.scale) || is_zero_bits(r.scale) {
        "scale 必须是有限非零数"@
    } else if cs.len() == 0 {
        "metric_codes 为空"@
    } else {
        metric_codes_problem_detail(cs, cs.len())
    }
}

/// The definition a sound record becomes.
pub open spec fn source_definition_model(r: SourceDefinitionRecord) -> SourceDefinitionModel {
    SourceDefinitionModel {
        kind: r.kind@,
        encoding: r.encoding@,
        unit: trim(r.unit@),
        scale: r.scale,
        metric_codes: texts(r.metric_codes@),
    }
}

impl JapanCbSourceDefinition {
    /// The source form.
    pub fn kind(&self) -> (r: &str)
        ensures
            r@ == self@.kind,
    {
        self.kind.as_str()
    }

    /// The source-side encoding.
    pub fn encoding(&self) -> (r: &str)
        ensures
            r@ == self@.encoding,
    {
        self.encoding.as_str()
    }

    /// The source unit.
    pub fn unit(&self) -> (r: &Unit)
        ensures
            r@ == self@.unit,
    {
        &self.unit
    }

    /// The source scale, as binary64 bits.
    pub fn scale(&self) -> (r: u64)
        ensures
            r == self@.scale,
    {
        self.scale
    }

    /// The metric codes the source covers.
    pub fn metric_codes(&self) -> (r: &[JapanCbMetricCode])
        ensures
            code_texts(r@) == self@.metric_codes,
    {
        self.metric_codes.as_slice()
    }
}

/// Checks a source definition as read.
///
/// Fails exactly when [`source_definition_problem`] names a problem, with that
/// problem's kind; otherwise the definition holds the record's values (the unit
/// trimmed).
pub fn source_definition_from_record(r: &SourceDefinitionRecord) -> (res: JapanCbResult<
    JapanCbSourceDefinition,
>)
    ensures
        res matches Ok(d) ==> source_definition_problem(*r) is None && d@
            == source_definition_model(*r),
        res matches Err(e) ==> source_definition_problem(*r) == Some(e.kind()) && e.detail()
            == source_definition_problem_detail(*r),
{
    if !str_eq(r.kind.as_str(), SOURCE_KIND_CSV_DOWNLOAD) {
        return Err(JapanCbError::SemanticallyRejected(String::from_str("源形态与清单声明的 csv_download 不符")));
    }
    if str_is_blank(r.encoding.as_str()) {
        return Err(JapanCbError::Missing(String::from_str("源侧编码声明为空")));
    }
    if !str_eq(r.encoding.as_str(), SOURCE_ENCODING_SHIFT_JIS) {
        return Err(JapanCbError::SemanticallyRejected(String::from_str("源侧编码与清单声明的 shift_jis 不符")));
    }
    let unit = Unit::try_new(r.unit.as_str())?;
    let scale = r.scale;
    if (scale >> 52u64) & 0x7ffu64 == 0x7ffu64 || scale & 0x7fff_ffff_ffff_ffffu64 == 0 {
        return Err(JapanCbError::Invalid(String::from_str("scale 必须是有限非零数")));
    }
    if r.metric_codes.len() == 0 {
        return Err(JapanCbError::Missing(String::from_str("metric_codes 为空")));
    }
    let ghost cs = texts(r.metric_codes@);
    let mut metric_codes: Vec<JapanCbMetricCode> = Vec::new();
    let mut i: usize = 0;
    assert(code_texts(metric_codes@) =~= cs.take(0));
    assert(source_definition_problem(*r) == metric_codes_problem(cs, cs.len()));
    assert(source_definition_problem_detail(*r) == metric_codes_problem_detail(cs, cs.len()));
    while i < r.metric_codes.len()
        invariant
            cs == texts(r.metric_codes@),
            source_definition_problem(*r) == metric_codes_problem(cs, cs.len()),
            source_definition_problem_detail(*r) == metric_codes_problem_detail(cs, cs.len()),
            i <= cs.len(),
            cs.len() == r.metric_codes@.len(),
            metric_codes_problem(cs, i as nat) is None,
            code_texts(metric_codes@) == cs.take(i as int),
        decreases cs.len() - i,
    {
        let code = &r.metric_codes[i];
        assert(code@ == cs[i as int]);
        let parsed = match validate_metric_code(code.as_str()) {
            Ok(p) => p,
            Err(e) => {
                proof {
                    lemma_codes_problem_persists(cs, (i + 1) as nat, cs.len());
                }
                return Err(e);
            },
        };
        if !parsed.is_declared() {
            proof {
                lemma_codes_problem_persists(cs, (i + 1) as nat, cs.len());
            }
            return Err(JapanCbError::SemanticallyRejected(String::from_str("清单未声明该 metric_code")));
        }
        let mut j: usize = 0;
        while j < metric_codes.len()
            invariant
                i < cs.len(),
                cs == texts(r.metric_codes@),
                source_definition_problem(*r) == metric_codes_problem(cs, cs.len()),
                source_definition_problem_detail(*r) == metric_codes_problem_detail(cs, cs.len()),
                metric_codes_problem(cs, i as nat) is None,
                j <= metric_codes.len(),
                code_texts(metric_codes@) == cs.take(i as int),
                parsed@ == cs[i as int],
                code@ == cs[i as int],
                metric_code_problem(cs[i as int]) is None,
                declared_metric_codes().contains(cs[i as int]),
                forall|k: int| 0 <= k < j ==> cs.take(i as int)[k] != cs[i as int],
            decreases metric_codes.len() - j,
        {
            assert(code_texts(metric_codes@)[j as int]
                == metric_codes@[j as int]@);
            if str_eq(metric_codes[j].as_str(), parsed.as_str()) {
                proof {
                    assert(cs.take(i as int)[j as int] == cs[i as int]);
                    assert(cs.take(i as int).contains(cs[i as int]));
                    lemma_codes_problem_persists(cs, (i + 1) as nat, cs.len());
                }
                return Err(JapanCbError::SemanticallyRejected(String::from_str("metric_codes 中重复声明")));
            }
            j = j + 1;
        }
        proof {
            if cs.take(i as int).contains(cs[i as int]) {
                let k = choose|k: int| 0 <= k < i && cs.take(i as int)[k] == cs[i as int];
            }
        }
        let ghost before = metric_codes@;
        let ghost parsed_text = parsed@;
        metric_codes.push(parsed);
        proof {
            assert(code_texts(before).len() == before.len());
            assert(cs.take(i as int).len() == i);
            assert(before.len() == i);
            assert(metric_codes@ == before.push(parsed));
            assert forall|k: int| 0 <= k < i + 1 implies #[trigger] code_texts(metric_codes@)[k]
                == cs.take(i + 1)[k] by {
                assert(code_texts(metric_codes@)[k] == metric_codes@[k]@);
                if k < i {
                    assert(metric_codes@[k] == before[k]);
                    assert(code_texts(before)[k] == before[k]@);
                    assert(code_texts(before)[k] == cs.take(i as int)[k]);
                } else {
                    assert(metric_codes@[k] == parsed);
                }
            }
            assert(code_texts(metric_codes@) =~= cs.take(i + 1));
        }
        i = i + 1;
    }
    assert(cs.take(cs.len() as int) =~= cs);
    let d = JapanCbSourceDefinition {
        kind: String::from_str(r.kind.as_str()),
        encoding: String::from_str(r.encoding.as_str()),
        unit,
        scale,
        metric_codes,
    };
    assert(d@.metric_codes =~= cs);
    Ok(d)
}

/// The detail of a TOML reading error: the byte span only, never the reader's
/// message or a piece of the source line.
pub open spec fn toml_error_detail(span: Option<(nat, nat)>) -> Seq<char> {
    "TOML 文档不可解析（字节区间 "@ + match span {
        Some((start, end)) => decimal(start) + ".."@ + decimal(end),
        None => "<未知>"@,
    } + "）：请检查字段名、类型与取值形态"@
}

/// `toml::de::Error`, the TOML reader's error, carried as an opaque value.
#[verifier::external_type_specification]
#[verifier::external_body]
pub struct ExTomlReadError(toml::de::Error);

/// The byte span, as start and end, that `toml::de::Error::span` reports for
/// `error`; it is a field of the error.
pub uninterp spec fn toml_span_of(error: toml::de::Error) -> Option<(nat, nat)>;

/// `toml::de::Error::span`: the byte range of the document where reading
/// failed, as start and end, or `None`. Claimed: the result is
/// [`toml_span_of`] of the error (the method returns a clone of a field).
/// Nothing is stated of the range's values.
#[verifier::external_body]
fn toml_error_span(error: &toml::de::Error) -> (span: Option<(usize, usize)>)
    ensures
        toml_span_of(*error) == match span {
            Some((start, end)) => Some((start as nat, end as nat)),
            None => None,
        },
{
    error.span().map(|range| (range.start, range.end))
}

/// The error for a TOML document that could not be read, with the byte span
/// where reading failed when there is one.
pub fn toml_reading_error(span: Option<(usize, usize)>) -> (e: JapanCbError)
    ensures
        e.kind() == JapanCbErrorKind::Invalid,
        e.detail() == toml_error_detail(
            match span {
                Some((start, end)) => Some((start as nat, end as nat)),
                None => None,
            },
        ),
{
    let mut m = String::from_str("TOML 文档不可解析（字节区间 ");
    match span {
        Some((start, end)) => {
            push_decimal(&mut m, start as u64);
            m.append("..");
            push_decimal(&mut m, end as u64);
        },
        None => {
            m.append("<未知>");
        },
    }
    m.append("）：请检查字段名、类型与取值形态");
    JapanCbError::Invalid(m)
}

/// Turns a TOML reading error into an error of this library. Only the byte
/// span is carried over: the reader's own message would echo the source line.
pub fn describe_toml_error(error: toml::de::Error) -> (e: JapanCbError)
    ensures
        e.kind() == JapanCbErrorKind::Invalid,
        e.detail() == toml_error_detail(toml_span_of(error)),
{
    let span = toml_error_span(&error);
    toml_reading_error(span)
}

/// A problem among the first `n` codes is the problem of every longer prefix.
proof fn lemma_codes_problem_persists(cs: Seq<Seq<char>>, n: nat, m: nat)
    requires
        n <= m,
        metric_codes_problem(cs, n) is Some,
    ensures
        metric_codes_problem(cs, m) == metric_codes_problem(cs, n),
        metric_codes_problem_detail(cs, m) == metric_codes_problem_detail(cs, n),
    decreases m - n,
{
    if n < m {
        lemma_codes_problem_persists(cs, n, (m - 1) as nat);
    }
}

/// What an accepted source definition holds: each metric code has the
/// canonical shape, is one of the twelve declared, and appears once.
pub proof fn lemma_accepted_metric_codes(cs: Seq<Seq<char>>)
    requires
        metric_codes_problem(cs, cs.len()) is None,
    ensures
        forall|i: int| 0 <= i < cs.len() ==> metric_code_problem(#[trigger] cs[i]) is None
            && declared_metric_codes().contains(cs[i]),
        forall|i: int, j: int| 0 <= i < j < cs.len() ==> #[trigger] cs[i] != #[trigger] cs[j],
{
    lemma_codes_prefix_sound(cs, cs.len());
}

/// A source definition with the declared kind and encoding, a unit that is
/// not blank, a finite non-zero scale, and a non-empty list of canonical,
/// declared and pairwise different metric codes is accepted: codes are refused
/// as repeated only when the very same text occurs twice.
pub proof fn lemma_distinct_declared_codes_accepted(r: SourceDefinitionRecord)
    requires
        r.kind@ == SOURCE_KIND_CSV_DOWNLOAD@,
        r.encoding@ == SOURCE_ENCODING_SHIFT_JIS@,
        !is_blank(r.unit@),
        is_finite_bits(r.scale),
        !is_zero_bits(r.scale),
        r.metric_codes@.len() > 0,
        forall|i: int|
            0 <= i < r.metric_codes@.len() ==> metric_code_problem(#[trigger] r.metric_codes@[i]@)
                is None && declared_metric_codes().contains(r.metric_codes@[i]@),
        forall|i: int, j: int|
            0 <= i < j < r.metric_codes@.len() ==> #[trigger] r.metric_codes@[i]@
                != #[trigger] r.metric_codes@[j]@,
    ensures
        source_definition_problem(r) is None,
        source_definition_model(r).metric_codes.len() == r.metric_codes@.len(),
{
    let cs = texts(r.metric_codes@);
    reveal_strlit("shift_jis");
    assert(r.encoding@[0] == 's');
    assert(!is_blank(r.encoding@));
    assert(cs.len() == r.metric_codes@.len());
    assert forall|i: int| 0 <= i < cs.len() implies metric_code_problem(#[trigger] cs[i]) is None
        && declared_metric_codes().contains(cs[i]) by {
        assert(cs[i] == r.metric_codes@[i]@);
    }
    assert forall|i: int, j: int| 0 <= i < j < cs.len() implies #[trigger] cs[i] != #[trigger] cs[j] by {
        assert(cs[i] == r.metric_codes@[i]@);
        assert(cs[j] == r.metric_codes@[j]@);
    }
    lemma_distinct_codes_no_problem(cs, cs.len());
}

/// Canonical, declared, pairwise different codes have no problem.
proof fn lemma_distinct_codes_no_problem(cs: Seq<Seq<char>>, n: nat)
    requires
        n <= cs.len(),
        forall|i: int| 0 <= i < cs.len() ==> metric_code_problem(#[trigger] cs[i]) is None
            && declared_metric_codes().contains(cs[i]),
        forall|i: int, j: int| 0 <= i < j < cs.len() ==> #[trigger] cs[i] != #[trigger] cs[j],
    ensures
        metric_codes_problem(cs, n) is None,
    decreases n,
{
    if n > 0 {
        lemma_distinct_codes_no_problem(cs, (n - 1) as nat);
        let last = cs[n - 1];
        assert(metric_code_problem(last) is None && declared_metric_codes().contains(last));
        if cs.take(n - 1).contains(last) {
            let k = choose|k: int| 0 <= k < n - 1 && #[trigger] cs.take(n - 1)[k] == last;
            assert(cs[k] == cs.take(n - 1)[k]);
            assert(cs[k] != cs[n - 1]);
        }
    }
}

proof fn lemma_codes_prefix_sound(cs: Seq<Seq<char>>, n: nat)
    requires
        n <= cs.len(),
        metric_codes_problem(cs, n) is None,
    ensures
        forall|i: int| 0 <= i < n ==> metric_code_problem(#[trigger] cs[i]) is None
            && declared_metric_codes().contains(cs[i]),
        forall|i: int, j: int| 0 <= i < j < n ==> #[trigger] cs[i] != #[trigger] cs[j],
    decreases n,
{
    if n > 0 {
        lemma_codes_prefix_sound(cs, (n - 1) as nat);
        assert forall|i: int, j: int| 0 <= i < j < n implies #[trigger] cs[i] != #[trigger] cs[j] by {
            if j == n - 1 {
                assert(cs.take(n - 1)[i] == cs[i]);
            }
        }
    }
}

} // verus!
