//! `JP.*` metric codes: the declared set, shape validation and the
//! cross-source guards.
//!
//! Canonical shape: `JP.<category>.<indicator>[.<sub-dimension>]`.
//!
//! Three hard refusals stand here:
//! 1. curves belong to another library: [`claim_curve_authority`] always refuses;
//! 2. `JPY=X` / `USDJPY=X` belong exclusively to the FRED library (`DEXJPUS`):
//!    [`reject_excluded_fx_symbol`] refuses them;
//! 3. `JPY=X` / `USDJPY=X` are not `DEXJPUS`: [`reject_silent_fx_substitution`].
use vstd::prelude::*;

use crate::error::{JapanCbError, JapanCbErrorKind, JapanCbResult};
use crate::text::{chars_of, decimal, is_unicode_whitespace, is_whitespace, str_eq};

verus! {

/// `JP.BS.TOTAL_ASSETS`: total assets of the Bank of Japan.
pub const JP_BS_TOTAL_ASSETS: &'static str = "JP.BS.TOTAL_ASSETS";

/// `JP.BS.JGB_HOLDINGS`: holdings of government bonds.
pub const JP_BS_JGB_HOLDINGS: &'static str = "JP.BS.JGB_HOLDINGS";

/// `JP.BS.ETF_HOLDINGS`: holdings of ETFs.
pub const JP_BS_ETF_HOLDINGS: &'static str = "JP.BS.ETF_HOLDINGS";

/// `JP.IR.POLICY_RATE`: the policy rate.
pub const JP_IR_POLICY_RATE: &'static str = "JP.IR.POLICY_RATE";

/// `JP.IR.TONA`: the uncollateralized overnight rate.
pub const JP_IR_TONA: &'static str = "JP.IR.TONA";

/// `JP.MB.TOTAL`: the monetary base.
pub const JP_MB_TOTAL: &'static str = "JP.MB.TOTAL";

/// `JP.MS.M2`: M2.
pub const JP_MS_M2: &'static str = "JP.MS.M2";

/// `JP.CA.TOTAL`: current account balances.
pub const JP_CA_TOTAL: &'static str = "JP.CA.TOTAL";

/// `JP.CA.EXCESS_RESERVES`: excess reserves.
pub const JP_CA_EXCESS_RESERVES: &'static str = "JP.CA.EXCESS_RESERVES";

/// `JP.MO.JGB_PURCHASE`: government bond purchases.
pub const JP_MO_JGB_PURCHASE: &'static str = "JP.MO.JGB_PURCHASE";

/// `JP.FX.INTERVENTION`: currency intervention.
pub const JP_FX_INTERVENTION: &'static str = "JP.FX.INTERVENTION";

/// `JP.TK.LARGE_MFG_DI`: the Tankan diffusion index of large manufacturers.
pub const JP_TK_LARGE_MFG_DI: &'static str = "JP.TK.LARGE_MFG_DI";

/// The twelve metric codes that the source register lists, in its order.
pub const DECLARED_METRIC_CODES: [&'static str; 12] = [
    JP_BS_TOTAL_ASSETS,
    JP_BS_JGB_HOLDINGS,
    JP_BS_ETF_HOLDINGS,
    JP_IR_POLICY_RATE,
    JP_IR_TONA,
    JP_MB_TOTAL,
    JP_MS_M2,
    JP_CA_TOTAL,
    JP_CA_EXCESS_RESERVES,
    JP_MO_JGB_PURCHASE,
    JP_FX_INTERVENTION,
    JP_TK_LARGE_MFG_DI,
];

/// The declared metric codes, as character sequences.
pub open spec fn declared_metric_codes() -> Seq<Seq<char>> {
    seq![
        JP_BS_TOTAL_ASSETS@,
        JP_BS_JGB_HOLDINGS@,
        JP_BS_ETF_HOLDINGS@,
        JP_IR_POLICY_RATE@,
        JP_IR_TONA@,
        JP_MB_TOTAL@,
        JP_MS_M2@,
        JP_CA_TOTAL@,
        JP_CA_EXCESS_RESERVES@,
        JP_MO_JGB_PURCHASE@,
        JP_FX_INTERVENTION@,
        JP_TK_LARGE_MFG_DI@,
    ]
}

/// The categories that appear in the declared metric codes.
#[non_exhaustive]
#[derive(Debug, Clone, Copy, PartialEq, Eq, Hash, Structural)]
pub enum MetricCategory {
    /// `BS`: balance sheet.
    BalanceSheet,
    /// `IR`: interest rates.
    InterestRate,
    /// `MB`: monetary base.
    MonetaryBase,
    /// `MS`: money stock.
    MoneyStock,
    /// `CA`: current accounts and reserves.
    CurrentAccount,
    /// `MO`: market operations.
    MarketOperations,
    /// `FX`: foreign exchange.
    ForeignExchange,
    /// `TK`: the Tankan survey.
    Tankan,
}

impl MetricCategory {
    /// Every category, in order of first appearance in the declared codes.
    pub const ALL: [MetricCategory; 8] = [
        MetricCategory::BalanceSheet,
        MetricCategory::InterestRate,
        MetricCategory::MonetaryBase,
        MetricCategory::MoneyStock,
        MetricCategory::CurrentAccount,
        MetricCategory::MarketOperations,
        MetricCategory::ForeignExchange,
        MetricCategory::Tankan,
    ];

    /// The two-letter category code.
    pub open spec fn code_spec(&self) -> Seq<char> {
        match self {
            MetricCategory::BalanceSheet => seq!['B', 'S'],
            MetricCategory::InterestRate => seq!['I', 'R'],
            MetricCategory::MonetaryBase => seq!['M', 'B'],
            MetricCategory::MoneyStock => seq!['M', 'S'],
            MetricCategory::CurrentAccount => seq!['C', 'A'],
            MetricCategory::MarketOperations => seq!['M', 'O'],
            MetricCategory::ForeignExchange => seq!['F', 'X'],
            MetricCategory::Tankan => seq!['T', 'K'],
        }
    }

    /// The category code (the literal segment of the metric code).
    pub fn code(&self) -> (r: &'static str)
        ensures
            r@ == self.code_spec(),
    {
        proof {
            reveal_strlit("BS");
            reveal_strlit("IR");
            reveal_strlit("MB");
            reveal_strlit("MS");
            reveal_strlit("CA");
            reveal_strlit("MO");
            reveal_strlit("FX");
            reveal_strlit("TK");
        }
        match self {
            MetricCategory::BalanceSheet => "BS",
            MetricCategory::InterestRate => "IR",
            MetricCategory::MonetaryBase => "MB",
            MetricCategory::MoneyStock => "MS",
            MetricCategory::CurrentAccount => "CA",
            MetricCategory::MarketOperations => "MO",
            MetricCategory::ForeignExchange => "FX",
            MetricCategory::Tankan => "TK",
        }
    }

    /// Parses a category code; `SemanticallyRejected` for any other text.
    pub fn from_code(code: &str) -> (r: JapanCbResult<MetricCategory>)
        ensures
            r matches Ok(c) ==> c.code_spec() == code@,
            r matches Err(e) ==> e.kind() == JapanCbErrorKind::SemanticallyRejected
                && !is_category_code(code@),
            r matches Err(e) ==> e.detail() == "清单未声明该 metric_code 类别"@,
    {
        let v = chars_of(code);
        match category_of_chars(&v) {
            Some(c) => Ok(c),
            None => {
                Err(JapanCbError::SemanticallyRejected(String::from_str("清单未声明该 metric_code 类别")))
            },
        }
    }
}

/// Different categories have different codes, so parsing a category's code
/// gives back that category.
pub proof fn lemma_category_code_injective(a: MetricCategory, b: MetricCategory)
    requires
        a.code_spec() == b.code_spec(),
    ensures
        a == b,
{
    assert(a.code_spec()[0] == b.code_spec()[0]);
    assert(a.code_spec()[1] == b.code_spec()[1]);
}

/// `s` is the code of some category.
pub open spec fn is_category_code(s: Seq<char>) -> bool {
    exists|c: MetricCategory| c.code_spec() == s
}

/// The category whose code is the characters of `v`.
fn category_of_chars(v: &Vec<char>) -> (r: Option<MetricCategory>)
    ensures
        r matches Some(c) ==> c.code_spec() == v@,
        r is None ==> !is_category_code(v@),
{
    if v.len() != 2 {
        proof {
            assert forall|c: MetricCategory| c.code_spec() != v@ by {
                assert(c.code_spec().len() == 2);
            }
        }
        return None;
    }
    let a = v[0];
    let b = v[1];
    let r = if a == 'B' && b == 'S' {
        Some(MetricCategory::BalanceSheet)
    } else if a == 'I' && b == 'R' {
        Some(MetricCategory::InterestRate)
    } else if a == 'M' && b == 'B' {
        Some(MetricCategory::MonetaryBase)
    } else if a == 'M' && b == 'S' {
        Some(MetricCategory::MoneyStock)
    } else if a == 'C' && b == 'A' {
        Some(MetricCategory::CurrentAccount)
    } else if a == 'M' && b == 'O' {
        Some(MetricCategory::MarketOperations)
    } else if a == 'F' && b == 'X' {
        Some(MetricCategory::ForeignExchange)
    } else if a == 'T' && b == 'K' {
        Some(MetricCategory::Tankan)
    } else {
        None
    };
    proof {
        if let Some(c) = r {
            assert(c.code_spec() =~= v@);
        } else {
            assert forall|c: MetricCategory| c.code_spec() != v@ by {
                if c.code_spec() == v@ {
                    assert(c.code_spec()[0] == a && c.code_spec()[1] == b);
                }
            }
        }
    }
    r
}

/// The pieces of `s` between dots (what `str::split('.')` yields): one more
/// piece than there are dots, empty pieces included.
pub open spec fn split_dots(s: Seq<char>) -> Seq<Seq<char>>
    decreases s.len(),
{
    if s.len() == 0 {
        seq![Seq::empty()]
    } else if s.last() == '.' {
        split_dots(s.drop_last()).push(Seq::empty())
    } else {
        let p = split_dots(s.drop_last());
        p.update(p.len() - 1, p.last().push(s.last()))
    }
}

/// Splitting always yields at least one piece.
pub proof fn lemma_split_dots_nonempty(s: Seq<char>)
    ensures
        split_dots(s).len() >= 1,
    decreases s.len(),
{
    if s.len() > 0 {
        lemma_split_dots_nonempty(s.drop_last());
    }
}

/// Every character of a segment is ASCII and not whitespace.
pub open spec fn segment_is_plain(seg: Seq<char>) -> bool {
    forall|k: int| 0 <= k < seg.len() ==> #[trigger] seg[k] <= '\u{7f}' && !is_unicode_whitespace(seg[k])
}

/// Why a text is not a metric code of canonical shape, checked in order:
/// three or four segments (`Invalid`), first segment `JP` (`Invalid`), second
/// segment a category code (`SemanticallyRejected`), then each later segment
/// non-empty (`Missing`) and ASCII without whitespace (`SemanticallyRejected`).
/// `None` when the shape is canonical.
pub open spec fn metric_code_problem(s: Seq<char>) -> Option<JapanCbErrorKind> {
    let segs = split_dots(s);
    if !(3 <= segs.len() <= 4) {
        Some(JapanCbErrorKind::Invalid)
    } else if segs[0] != seq!['J', 'P'] {
        Some(JapanCbErrorKind::Invalid)
    } else if !is_category_code(segs[1]) {
        Some(JapanCbErrorKind::SemanticallyRejected)
    } else if segs[2].len() == 0 {
        Some(JapanCbErrorKind::Missing)
    } else if !segment_is_plain(segs[2]) {
        Some(JapanCbErrorKind::SemanticallyRejected)
    } else if segs.len() == 4 && segs[3].len() == 0 {
        Some(JapanCbErrorKind::Missing)
    } else if segs.len() == 4 && !segment_is_plain(segs[3]) {
        Some(JapanCbErrorKind::SemanticallyRejected)
    } else {
        None
    }
}

/// The detail of the error for a text that is not a metric code of canonical
/// shape, for the first problem that [`metric_code_problem`] finds.
pub open spec fn metric_code_problem_detail(s: Seq<char>) -> Seq<char> {
    let segs = split_dots(s);
    if !(3 <= segs.len() <= 4) {
        "metric_code 段数非法（须为 JP.<类别>.<指标>[.<子维度>]）"@
    } else if segs[0] != seq!['J', 'P'] {
        "metric_code 前缀必须为 JP"@
    } else if !is_category_code(segs[1]) {
        "清单未声明该 metric_code 类别"@
    } else if segs[2].len() == 0 {
        segment_error_detail(2, true)
    } else if !segment_is_plain(segs[2]) {
        segment_error_detail(2, false)
    } else if segs.len() == 4 && segs[3].len() == 0 {
        segment_error_detail(3, true)
    } else {
        segment_error_detail(3, false)
    }
}

/// The detail of the error for segment `index`: empty, or holding a
/// character that is not ASCII or is whitespace.
pub open spec fn segment_error_detail(index: nat, empty: bool) -> Seq<char> {
    if empty {
        "metric_code 第 "@ + decimal(index) + " 段为空"@
    } else {
        "metric_code 第 "@ + decimal(index) + " 段含非 ASCII 或空白"@
    }
}

/// A `JP.*` metric code of canonical shape.
#[non_exhaustive]
#[derive(Debug, PartialEq, Eq, Hash)]
pub struct JapanCbMetricCode(String);

impl Clone for JapanCbMetricCode {
    fn clone(&self) -> (r: Self)
        ensures
            r@ == self@,
    {
        proof {
            use_type_invariant(self);
        }
        JapanCbMetricCode(self.0.clone())
    }
}

impl View for JapanCbMetricCode {
    type V = Seq<char>;

    closed spec fn view(&self) -> Seq<char> {
        self.0@
    }
}

impl JapanCbMetricCode {
    /// Every metric code has the canonical shape.
    #[verifier::type_invariant]
    pub open spec fn wf(&self) -> bool {
        metric_code_problem(self@) is None
    }

    /// The canonical text.
    pub fn as_str(&self) -> (r: &str)
        ensures
            r@ == self@,
    {
        self.0.as_str()
    }

    /// The category segment.
    pub fn category(&self) -> (r: JapanCbResult<MetricCategory>)
        ensures
            r matches Ok(c) && c.code_spec() == split_dots(self@)[1],
    {
        proof {
            use_type_invariant(self);
        }
        let v = chars_of(self.0.as_str());
        let segs = split_segments(&v);
        match category_of_chars(&segs[1]) {
            Some(c) => Ok(c),
            None => Err(JapanCbError::SemanticallyRejected(String::from_str("清单未声明该 metric_code 类别"))),
        }
    }

    /// Whether this is one of the twelve declared metric codes.
    pub fn is_declared(&self) -> (r: bool)
        ensures
            r == declared_metric_codes().contains(self@),
    {
        is_declared_metric_code(self.0.as_str())
    }

    /// The display form: the canonical text.
    pub fn to_string(&self) -> (r: String)
        ensures
            r@ == self@,
    {
        self.0.clone()
    }
}

/// The segments of `v` between dots.
fn split_segments(v: &Vec<char>) -> (segs: Vec<Vec<char>>)
    ensures
        segs@.len() == split_dots(v@).len(),
        forall|k: int| 0 <= k < segs@.len() ==> #[trigger] segs@[k]@ == split_dots(v@)[k],
{
    let mut segs: Vec<Vec<char>> = Vec::new();
    let mut cur: Vec<char> = Vec::new();
    let mut i: usize = 0;
    while i < v.len()
        invariant
            i <= v.len(),
            split_dots(v@.take(i as int)).len() == segs@.len() + 1,
            forall|k: int| 0 <= k < segs@.len() ==> #[trigger] segs@[k]@ == split_dots(v@.take(i as int))[k],
            cur@ == split_dots(v@.take(i as int)).last(),
        decreases v.len() - i,
    {
        assert(v@.take(i + 1).drop_last() =~= v@.take(i as int));
        assert(v@.take(i + 1).last() == v@[i as int]);
        if v[i] == '.' {
            segs.push(cur);
            cur = Vec::new();
            assert(cur@ =~= Seq::<char>::empty());
        } else {
            cur.push(v[i]);
        }
        i = i + 1;
    }
    assert(v@.take(v.len() as int) =~= v@);
    segs.push(cur);
    segs
}

/// Whether `code` is one of the twelve declared metric codes.
pub fn is_declared_metric_code(code: &str) -> (r: bool)
    ensures
        r == declared_metric_codes().contains(code@),
{
    let r = str_eq(code, JP_BS_TOTAL_ASSETS) || str_eq(code, JP_BS_JGB_HOLDINGS) || str_eq(
        code,
        JP_BS_ETF_HOLDINGS,
    ) || str_eq(code, JP_IR_POLICY_RATE) || str_eq(code, JP_IR_TONA) || str_eq(code, JP_MB_TOTAL)
        || str_eq(code, JP_MS_M2) || str_eq(code, JP_CA_TOTAL) || str_eq(code, JP_CA_EXCESS_RESERVES)
        || str_eq(code, JP_MO_JGB_PURCHASE) || str_eq(code, JP_FX_INTERVENTION) || str_eq(
        code,
        JP_TK_LARGE_MFG_DI,
    );
    proof {
        let d = declared_metric_codes();
        if r {
            let k = choose|k: int| 0 <= k < 12 && d[k] == code@;
            assert(d.contains(code@));
        } else {
            assert forall|k: int| 0 <= k < d.len() implies d[k] != code@ by {}
        }
    }
    r
}

/// Checks one segment after the category: empty is `Missing`, non-ASCII or
/// whitespace is `SemanticallyRejected`.
fn check_segment(seg: &Vec<char>, index: u64) -> (r: JapanCbResult<()>)
    ensures
        r is Ok <==> seg@.len() > 0 && segment_is_plain(seg@),
        r matches Err(e) ==> e.kind() == (if seg@.len() == 0 {
            JapanCbErrorKind::Missing
        } else {
            JapanCbErrorKind::SemanticallyRejected
        }) && e.detail() == segment_error_detail(index as nat, seg@.len() == 0),
{
    if seg.len() == 0 {
        let mut m = String::from_str("metric_code 第 ");
        crate::text::push_decimal(&mut m, index);
        m.append(" 段为空");
        return Err(JapanCbError::Missing(m));
    }
    let mut i: usize = 0;
    while i < seg.len()
        invariant
            i <= seg.len(),
            forall|k: int| 0 <= k < i ==> #[trigger] seg@[k] <= '\u{7f}' && !is_unicode_whitespace(
                seg@[k],
            ),
        decreases seg.len() - i,
    {
        if seg[i] > '\u{7f}' || is_whitespace(seg[i]) {
            let mut m = String::from_str("metric_code 第 ");
            crate::text::push_decimal(&mut m, index);
            m.append(" 段含非 ASCII 或空白");
            return Err(JapanCbError::SemanticallyRejected(m));
        }
        i = i + 1;
    }
    Ok(())
}

/// Checks the canonical shape `JP.<category>.<indicator>[.<sub-dimension>]`.
///
/// Only the shape is checked: whether the code is one of the twelve declared
/// ones is [`is_declared_metric_code`]'s question. Fails exactly when
/// [`metric_code_problem`] names a problem, with that problem's kind.
pub fn validate_metric_code(code: &str) -> (r: JapanCbResult<JapanCbMetricCode>)
    ensures
        r matches Ok(m) ==> m@ == code@ && metric_code_problem(code@) is None,
        r matches Err(e) ==> metric_code_problem(code@) == Some(e.kind()) && e.detail()
            == metric_code_problem_detail(code@),
{
    let v = chars_of(code);
    let segs = split_segments(&v);
    let n = segs.len();
    if n < 3 || n > 4 {
        return Err(
            JapanCbError::Invalid(String::from_str("metric_code 段数非法（须为 JP.<类别>.<指标>[.<子维度>]）")),
        );
    }
    if !(segs[0].len() == 2 && segs[0][0] == 'J' && segs[0][1] == 'P') {
        proof {
            if segs@[0]@ == seq!['J', 'P'] {
                assert(segs@[0]@[0] == 'J' && segs@[0]@[1] == 'P');
            }
        }
        return Err(JapanCbError::Invalid(String::from_str("metric_code 前缀必须为 JP")));
    }
    proof {
        assert(segs@[0]@ =~= seq!['J', 'P']);
    }
    if category_of_chars(&segs[1]).is_none() {
        return Err(JapanCbError::SemanticallyRejected(String::from_str("清单未声明该 metric_code 类别")));
    }
    check_segment(&segs[2], 2)?;
    if n == 4 {
        check_segment(&segs[3], 3)?;
    }
    let r = JapanCbMetricCode(String::from_str(code));
    Ok(r)
}

/// Symbols that this library must not claim as its primary source: `JPY=X`
/// and `USDJPY=X` belong exclusively to the FRED library (`DEXJPUS`).
pub const EXCLUDED_FX_SYMBOLS: [&'static str; 2] = ["JPY=X", "USDJPY=X"];

/// The yen series that the FRED library owns exclusively.
pub const FRED_EXCLUSIVE_FX_SERIES: &'static str = "DEXJPUS";

/// `s` is one of the excluded FX symbols.
pub open spec fn is_excluded_fx_symbol(s: Seq<char>) -> bool {
    s == "JPY=X"@ || s == "USDJPY=X"@
}

/// Refuses to claim `JPY=X` / `USDJPY=X` as this library's primary source.
pub fn reject_excluded_fx_symbol(symbol: &str) -> (r: JapanCbResult<()>)
    ensures
        r is Err <==> is_excluded_fx_symbol(symbol@),
        r matches Err(e) ==> e.kind() == JapanCbErrorKind::WriteAuthorityDenied && e.detail()
            == "JPY=X / USDJPY=X 归 fredx 独占（DEXJPUS）：本库不得主张主源"@,
{
    if str_eq(symbol, "JPY=X") || str_eq(symbol, "USDJPY=X") {
        return Err(
            JapanCbError::WriteAuthorityDenied(
                String::from_str("JPY=X / USDJPY=X 归 fredx 独占（DEXJPUS）：本库不得主张主源"),
            ),
        );
    }
    Ok(())
}

/// Refuses to treat an excluded symbol and `DEXJPUS` as the same series: near
/// synonyms with different identities must never stand in for each other.
pub fn reject_silent_fx_substitution(left: &str, right: &str) -> (r: JapanCbResult<()>)
    ensures
        r is Err <==> (is_excluded_fx_symbol(left@) || is_excluded_fx_symbol(right@)) && (left@
            == FRED_EXCLUSIVE_FX_SERIES@ || right@ == FRED_EXCLUSIVE_FX_SERIES@),
        r matches Err(e) ==> e.kind() == JapanCbErrorKind::SemanticallyRejected && e.detail()
            == "JPY=X / USDJPY=X 与 DEXJPUS 语义不同：前者归 fredx 独占，MUST NOT 互为别名"@,
{
    let has_excluded = str_eq(left, "JPY=X") || str_eq(left, "USDJPY=X") || str_eq(right, "JPY=X")
        || str_eq(right, "USDJPY=X");
    let has_fred = str_eq(left, FRED_EXCLUSIVE_FX_SERIES) || str_eq(right, FRED_EXCLUSIVE_FX_SERIES);
    if has_excluded && has_fred {
        return Err(
            JapanCbError::SemanticallyRejected(
                String::from_str("JPY=X / USDJPY=X 与 DEXJPUS 语义不同：前者归 fredx 独占，MUST NOT 互为别名"),
            ),
        );
    }
    Ok(())
}

/// Claims authority over the MOF / BOJ curves. Curves belong to another
/// library, which this one does not promote to, so the claim is always
/// refused with `RoutedElsewhere`.
pub fn claim_curve_authority() -> (r: JapanCbResult<()>)
    ensures
        r matches Err(e) && e.kind() == JapanCbErrorKind::RoutedElsewhere && e.detail()
            == "MOF / BOJ 曲线归 yieldx #13–14：本库不晋级、不复制 kernel"@,
{
    Err(
        JapanCbError::RoutedElsewhere(
            String::from_str("MOF / BOJ 曲线归 yieldx #13–14：本库不晋级、不复制 kernel"),
        ),
    )
}

/// Claims write sovereignty over JGB 10Y / Japan CPI. Sovereignty versus
/// forwarding is still pending, so the claim is always refused with
/// `WriteAuthorityDenied`.
pub fn claim_forwarded_series_sovereignty() -> (r: JapanCbResult<()>)
    ensures
        r matches Err(e) && e.kind() == JapanCbErrorKind::WriteAuthorityDenied && e.detail()
            == "JGB 10Y / 日本 CPI 的主权与转发归属待裁（pending）：本库不得主张权威写入"@,
{
    Err(
        JapanCbError::WriteAuthorityDenied(
            String::from_str(
                "JGB 10Y / 日本 CPI 的主权与转发归属待裁（pending）：本库不得主张权威写入",
            ),
        ),
    )
}

} // verus!
