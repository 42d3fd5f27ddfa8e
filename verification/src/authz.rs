//! Fail-closed authorization decision.
//!
//! This source has no owner sign-off on record (`authorization = unknown`), so
//! its decision is `Denied` in the current state of the register. The decision
//! is a read-only conclusion: it changes no registered value. It answers
//! whether this source's scope is authorized, not whether the library is
//! production ready.
use vstd::prelude::*;

use crate::error::{JapanCbError, JapanCbErrorKind, JapanCbResult};
use crate::text::{is_blank, str_is_blank};
use crate::value::date::Date;

verus! {

/// An authorization decision.
#[non_exhaustive]
#[derive(Debug, Clone, PartialEq, Eq)]
pub enum JapanCbAuthorization {
    /// The evidence is valid and covers the requested scope and date.
    Authorized {
        /// The covered source / endpoint / mode / purpose / validity.
        scope: String,
    },
    /// The evidence is missing, expired, unsigned, or its scope is unknown.
    Denied {
        /// A readable reason for the denial.
        reason: String,
    },
}

/// The model of a decision: `Ok(scope)` when authorized, `Err(reason)` when denied.
impl View for JapanCbAuthorization {
    type V = Result<Seq<char>, Seq<char>>;

    open spec fn view(&self) -> Result<Seq<char>, Seq<char>> {
        match self {
            JapanCbAuthorization::Authorized { scope } => Ok(scope@),
            JapanCbAuthorization::Denied { reason } => Err(reason@),
        }
    }
}

impl JapanCbAuthorization {
    /// Whether the decision lets the request through.
    pub fn is_authorized(&self) -> (r: bool)
        ensures
            r == (self@ is Ok),
    {
        match self {
            JapanCbAuthorization::Authorized { .. } => true,
            JapanCbAuthorization::Denied { .. } => false,
        }
    }

    /// The reason of a denial; `None` when authorized.
    pub fn denial_reason(&self) -> (r: Option<&str>)
        ensures
            match self@ {
                Ok(_) => r is None,
                Err(reason) => r matches Some(t) && t@ == reason,
            },
    {
        match self {
            JapanCbAuthorization::Authorized { .. } => None,
            JapanCbAuthorization::Denied { reason } => Some(reason.as_str()),
        }
    }
}

/// Authorization evidence as registered offline.
///
/// A field that has not been verified is unknown and must be `None` (or an
/// empty reference), so that the decision refuses it.
#[non_exhaustive]
#[derive(Debug, Clone, PartialEq, Eq)]
pub struct JapanCbAuthorizationEvidence {
    /// Where the evidence is (sign-off file or register number); blank counts as missing.
    pub evidence_ref: String,
    /// The signer; `None` when unknown.
    pub signer: Option<String>,
    /// The covered source / endpoint / mode / purpose; `None` when unknown.
    pub scope: Option<String>,
    /// The last day of validity (inclusive); `None` when unknown.
    pub valid_until: Option<Date>,
}

/// The text of an optional string.
pub open spec fn opt_text(s: Option<String>) -> Option<Seq<char>> {
    match s {
        Some(t) => Some(t@),
        None => None,
    }
}

/// The text of an optional string slice.
pub open spec fn opt_str_text(s: Option<&str>) -> Option<Seq<char>> {
    match s {
        Some(t) => Some(t@),
        None => None,
    }
}

/// `a` is a day before `b`.
pub open spec fn date_before(a: Date, b: Date) -> bool {
    ||| a.spec_year() < b.spec_year()
    ||| a.spec_year() == b.spec_year() && a.spec_month() < b.spec_month()
    ||| a.spec_year() == b.spec_year() && a.spec_month() == b.spec_month() && a.spec_day()
        < b.spec_day()
}

impl JapanCbAuthorizationEvidence {
    /// Registers a piece of evidence. No decision is made here; that is
    /// [`decide_authorization`]'s job.
    pub fn new(
        evidence_ref: &str,
        signer: Option<&str>,
        scope: Option<&str>,
        valid_until: Option<Date>,
    ) -> (r: JapanCbAuthorizationEvidence)
        ensures
            r.evidence_ref@ == evidence_ref@,
            opt_text(r.signer) == opt_str_text(signer),
            opt_text(r.scope) == opt_str_text(scope),
            r.valid_until == valid_until,
    {
        JapanCbAuthorizationEvidence {
            evidence_ref: String::from_str(evidence_ref),
            signer: match signer {
                Some(s) => Some(String::from_str(s)),
                None => None,
            },
            scope: match scope {
                Some(s) => Some(String::from_str(s)),
                None => None,
            },
            valid_until,
        }
    }
}

/// The fail-closed decision: `Err(reason)` for the first gap found in order
/// (no evidence, blank reference, unknown or blank signer, unknown or blank
/// scope, unknown validity, expired before `today`), otherwise `Ok(scope)`.
pub open spec fn authorization_outcome(
    evidence: Option<JapanCbAuthorizationEvidence>,
    today: Date,
) -> Result<Seq<char>, Seq<char>> {
    match evidence {
        None => Err("授权证据缺失：本层不得默认放行"@),
        Some(e) => if is_blank(e.evidence_ref@) {
            Err("授权证据出处为空：无法追溯，按缺失处理"@)
        } else if e.signer is None {
            Err("签署者不明：无 Owner 签核，不得按已授权处理"@)
        } else if is_blank(e.signer->0@) {
            Err("签署者为空串：按签署者不明处理"@)
        } else if e.scope is None {
            Err("覆盖范围不明：无法判定本次请求是否被覆盖"@)
        } else if is_blank(e.scope->0@) {
            Err("覆盖范围为空串：按范围不明处理"@)
        } else if e.valid_until is None {
            Err("有效期不明：无法判定证据是否仍然有效"@)
        } else if date_before(e.valid_until->0, today) {
            Err("证据已过期：有效期截止日早于当前日期"@)
        } else {
            Ok(e.scope->0@)
        },
    }
}

/// The evidence behind an optional reference.
pub open spec fn deref_evidence(evidence: Option<&JapanCbAuthorizationEvidence>) -> Option<
    JapanCbAuthorizationEvidence,
> {
    match evidence {
        Some(e) => Some(*e),
        None => None,
    }
}

/// Decides fail-closed: any gap in the evidence, or expiry before `today`,
/// gives `Denied`; complete and current evidence gives `Authorized` with its
/// scope. It never lets a request through by default.
pub fn decide_authorization(evidence: Option<&JapanCbAuthorizationEvidence>, today: Date) -> (r:
    JapanCbAuthorization)
    ensures
        r@ == authorization_outcome(deref_evidence(evidence), today),
{
    let evidence = match evidence {
        Some(e) => e,
        None => {
            return JapanCbAuthorization::Denied {
                reason: String::from_str("授权证据缺失：本层不得默认放行"),
            };
        },
    };
    if str_is_blank(evidence.evidence_ref.as_str()) {
        return JapanCbAuthorization::Denied {
            reason: String::from_str("授权证据出处为空：无法追溯，按缺失处理"),
        };
    }
    let signer = match &evidence.signer {
        Some(s) => s,
        None => {
            return JapanCbAuthorization::Denied {
                reason: String::from_str("签署者不明：无 Owner 签核，不得按已授权处理"),
            };
        },
    };
    if str_is_blank(signer.as_str()) {
        return JapanCbAuthorization::Denied {
            reason: String::from_str("签署者为空串：按签署者不明处理"),
        };
    }
    let scope = match &evidence.scope {
        Some(s) => s,
        None => {
            return JapanCbAuthorization::Denied {
                reason: String::from_str("覆盖范围不明：无法判定本次请求是否被覆盖"),
            };
        },
    };
    if str_is_blank(scope.as_str()) {
        return JapanCbAuthorization::Denied {
            reason: String::from_str("覆盖范围为空串：按范围不明处理"),
        };
    }
    let valid_until = match evidence.valid_until {
        Some(d) => d,
        None => {
            return JapanCbAuthorization::Denied {
                reason: String::from_str("有效期不明：无法判定证据是否仍然有效"),
            };
        },
    };
    let expired = valid_until.year() < today.year() || (valid_until.year() == today.year()
        && valid_until.month() < today.month()) || (valid_until.year() == today.year()
        && valid_until.month() == today.month() && valid_until.day() < today.day());
    if expired {
        return JapanCbAuthorization::Denied {
            reason: String::from_str("证据已过期：有效期截止日早于当前日期"),
        };
    }
    JapanCbAuthorization::Authorized { scope: String::from_str(scope.as_str()) }
}

/// The evidence registered for this source: always `None`. This is the
/// register's standing record (no owner sign-off file), not a gap to fill.
pub fn registered_evidence() -> (r: Option<JapanCbAuthorizationEvidence>)
    ensures
        r is None,
{
    None
}

/// This source's current decision: with no registered evidence it is always
/// `Denied`.
pub fn current_authorization(today: Date) -> (r: JapanCbAuthorization)
    ensures
        r@ == authorization_outcome(None, today),
        r@ is Err,
{
    let evidence = registered_evidence();
    decide_authorization(evidence.as_ref(), today)
}

/// Turns a decision into a result: a denial becomes `AuthorizationDenied`
/// carrying the reason.
pub fn ensure_authorized(verdict: &JapanCbAuthorization) -> (r: JapanCbResult<()>)
    ensures
        r is Ok <==> verdict@ is Ok,
        r matches Err(e) ==> e.kind() == JapanCbErrorKind::AuthorizationDenied && verdict@
            == Err::<Seq<char>, Seq<char>>(e.detail()),
{
    match verdict {
        JapanCbAuthorization::Authorized { .. } => Ok(()),
        JapanCbAuthorization::Denied { reason } => Err(
            JapanCbError::AuthorizationDenied(String::from_str(reason.as_str())),
        ),
    }
}

/// Evidence is honoured exactly up to its last day of validity, in calendar
/// order (year first, then month, then day): for evidence whose reference,
/// signer and scope are known and not blank, the decision lets the request
/// through exactly when `valid_until`, read as the number `yyyymmdd`, is not
/// below `today`'s; any earlier `valid_until`, in an earlier year included, is
/// denied as expired.
pub proof fn lemma_expiry_in_calendar_order(e: JapanCbAuthorizationEvidence, today: Date)
    requires
        today.wf(),
        !is_blank(e.evidence_ref@),
        e.signer is Some,
        !is_blank(e.signer->0@),
        e.scope is Some,
        !is_blank(e.scope->0@),
        e.valid_until is Some,
        e.valid_until->0.wf(),
    ensures
        ({
            let d = e.valid_until->0;
            let last = d.spec_year() * 10000 + d.spec_month() * 100 + d.spec_day();
            let now = today.spec_year() * 10000 + today.spec_month() * 100 + today.spec_day();
            &&& authorization_outcome(Some(e), today) is Ok <==> now <= last
            &&& last < now ==> authorization_outcome(Some(e), today) == Err::<Seq<char>, Seq<char>>(
                "证据已过期：有效期截止日早于当前日期"@,
            )
            &&& d.spec_year() < today.spec_year() ==> authorization_outcome(Some(e), today) is Err
        }),
{
}

/// Fail-closed: a decision lets a request through only with evidence whose
/// reference, signer and scope are known and not blank and whose validity
/// reaches `today`; the scope it grants is the evidence's own.
pub proof fn lemma_authorized_only_with_complete_evidence(
    evidence: Option<JapanCbAuthorizationEvidence>,
    today: Date,
)
    requires
        authorization_outcome(evidence, today) is Ok,
    ensures
        evidence matches Some(e) && {
            &&& !is_blank(e.evidence_ref@)
            &&& e.signer matches Some(s) && !is_blank(s@)
            &&& e.scope matches Some(s) && !is_blank(s@) && authorization_outcome(evidence, today)
                == Ok::<Seq<char>, Seq<char>>(s@)
            &&& e.valid_until matches Some(d) && !date_before(d, today)
        },
{
}

} // verus!
